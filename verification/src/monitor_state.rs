use std::collections::VecDeque;
use vstd::prelude::*;

use crate::message::MonMessage;
use crate::monitor_kind::{release_choice, release_rule, Release};

verus! {

/// Abstract state of a monitor server: who holds the monitor and who waits where.
pub ghost struct MonitorModel {
    pub holder: Option<u32>,
    pub enter: Seq<u32>,
    pub next: Seq<u32>,
    pub conds: Seq<Seq<u32>>,
}

/// Monitor state kept by the server; every client is blocked until it gets a reply.
pub struct MonitorState {
    /// Which client currently holds the monitor (None = free)
    pub mutex_holder: Option<u32>,
    /// Clients waiting to acquire the monitor
    pub enter_queue: VecDeque<u32>,
    /// Signalers waiting to resume after a Hoare hand-off
    pub next_queue: VecDeque<u32>,
    /// Per-condition-variable waiting queues
    pub condvar_queues: Vec<VecDeque<u32>>,
}

impl View for MonitorState {
    type V = MonitorModel;

    open spec fn view(&self) -> MonitorModel {
        MonitorModel {
            holder: self.mutex_holder,
            enter: self.enter_queue@,
            next: self.next_queue@,
            conds: self.condvar_queues@.map_values(|q: VecDeque<u32>| q@),
        }
    }
}

/// Gives the monitor to the first signaler waiting to resume, else to the first
/// client waiting to enter, else frees it; the new holder, if any, is replied to.
pub open spec fn hand_off_spec(m: MonitorModel) -> (MonitorModel, Seq<u32>) {
    if m.next.len() > 0 {
        (MonitorModel { holder: Some(m.next[0]), next: m.next.drop_first(), ..m }, seq![m.next[0]])
    } else if m.enter.len() > 0 {
        (MonitorModel { holder: Some(m.enter[0]), enter: m.enter.drop_first(), ..m }, seq![m.enter[0]])
    } else {
        (MonitorModel { holder: None, ..m }, Seq::empty())
    }
}

/// The condition index that a request names, if it names one.
pub open spec fn msg_condition(msg: MonMessage) -> Option<usize> {
    match msg {
        MonMessage::MonWait(c) => Some(c),
        MonMessage::MonSignal(c) => Some(c),
        MonMessage::MonBroadcast(c) => Some(c),
        _ => None,
    }
}

/// A request can be processed when the condition it names exists.
pub open spec fn condition_in_range(m: MonitorModel, msg: MonMessage) -> bool {
    match msg_condition(msg) {
        Some(c) => c < m.conds.len(),
        None => true,
    }
}

/// The next state and the clients replied to, in order, after `client` sends `msg`.
pub open spec fn step_spec(m: MonitorModel, client: u32, msg: MonMessage) -> (MonitorModel, Seq<u32>) {
    match msg {
        MonMessage::MonRegister => (m, seq![client]),
        MonMessage::MonEnter => {
            if m.holder is None {
                (MonitorModel { holder: Some(client), ..m }, seq![client])
            } else {
                (MonitorModel { enter: m.enter.push(client), ..m }, Seq::empty())
            }
        },
        MonMessage::MonLeave => {
            let (m2, r) = hand_off_spec(m);
            (m2, r.push(client))
        },
        MonMessage::MonWait(c) => {
            hand_off_spec(MonitorModel { conds: m.conds.update(c as int, m.conds[c as int].push(client)), ..m })
        },
        MonMessage::MonSignal(c) => {
            if m.conds[c as int].len() > 0 {
                let w = m.conds[c as int][0];
                (
                    MonitorModel {
                        holder: Some(w),
                        next: m.next.push(client),
                        conds: m.conds.update(c as int, m.conds[c as int].drop_first()),
                        ..m
                    },
                    seq![w],
                )
            } else {
                (m, seq![client])
            }
        },
        MonMessage::MonBroadcast(c) => {
            (
                MonitorModel {
                    enter: m.enter + m.conds[c as int],
                    conds: m.conds.update(c as int, Seq::empty()),
                    ..m
                },
                seq![client],
            )
        },
    }
}

impl MonitorState {
    /// A free monitor with `num_conditions` empty condition queues.
    pub fn new(num_conditions: usize) -> (s: MonitorState)
        ensures
            s@.holder is None,
            s@.enter == Seq::<u32>::empty(),
            s@.next == Seq::<u32>::empty(),
            s@.conds == Seq::new(num_conditions as nat, |i: int| Seq::<u32>::empty()),
    {
        let mut condvar_queues: Vec<VecDeque<u32>> = Vec::new();
        let mut i: usize = 0;
        while i < num_conditions
            invariant
                i <= num_conditions,
                condvar_queues@.len() == i,
                forall|j: int| 0 <= j < i ==> (#[trigger] condvar_queues@[j])@ == Seq::<u32>::empty(),
            decreases num_conditions - i,
        {
            condvar_queues.push(VecDeque::new());
            i = i + 1;
        }
        let s = MonitorState {
            mutex_holder: None,
            enter_queue: VecDeque::new(),
            next_queue: VecDeque::new(),
            condvar_queues,
        };
        assert(s@.conds =~= Seq::new(num_conditions as nat, |i: int| Seq::<u32>::empty()));
        s
    }

    /// Number of condition variables the server keeps.
    pub fn num_conditions(&self) -> (n: usize)
        ensures
            n == self@.conds.len(),
    {
        self.condvar_queues.len()
    }

    /// Whether `msg` can be processed: the condition it names, if any, exists.
    pub fn accepts(&self, msg: MonMessage) -> (r: bool)
        ensures
            r == condition_in_range(self@, msg),
    {
        match msg {
            MonMessage::MonWait(c) => c < self.condvar_queues.len(),
            MonMessage::MonSignal(c) => c < self.condvar_queues.len(),
            MonMessage::MonBroadcast(c) => c < self.condvar_queues.len(),
            _ => true,
        }
    }

    /// Releases the monitor to the highest-priority waiter: the next queue
    /// first (Hoare semantics), then the enter queue. Returns the new holder,
    /// which must be replied to.
    fn hand_off(&mut self) -> (woken: Option<u32>)
        ensures
            (final(self)@, match woken { Some(w) => seq![w], None => Seq::<u32>::empty() })
                == hand_off_spec(old(self)@),
    {
        let resume_signaler = match release_choice(self.next_queue.len() as u64) {
            Release::ResumeSignaler => self.next_queue.pop_front(),
            Release::FreeMonitor => None,
        };
        if let Some(id) = resume_signaler {
            self.mutex_holder = Some(id);
            Some(id)
        } else if let Some(id) = self.enter_queue.pop_front() {
            self.mutex_holder = Some(id);
            Some(id)
        } else {
            self.mutex_holder = None;
            None
        }
    }

    /// Applies one request of `client` and returns the clients to reply to, in order.
    pub fn process(&mut self, client: u32, msg: MonMessage) -> (replies: Vec<u32>)
        requires
            condition_in_range(old(self)@, msg),
        ensures
            (final(self)@, replies@) == step_spec(old(self)@, client, msg),
    {
        let mut replies: Vec<u32> = Vec::new();
        match msg {
            MonMessage::MonRegister => {
                replies.push(client);
            },
            MonMessage::MonEnter => {
                if self.mutex_holder.is_none() {
                    self.mutex_holder = Some(client);
                    replies.push(client);
                } else {
                    self.enter_queue.push_back(client);
                }
            },
            MonMessage::MonLeave => {
                if let Some(w) = self.hand_off() {
                    replies.push(w);
                }
                replies.push(client);
            },
            MonMessage::MonWait(cond) => {
                let ghost pre = self@;
                self.condvar_queues[cond].push_back(client);
                proof {
                    assert(self@.conds =~= pre.conds.update(cond as int, pre.conds[cond as int].push(client)));
                }
                if let Some(w) = self.hand_off() {
                    replies.push(w);
                }
            },
            MonMessage::MonSignal(cond) => {
                let ghost pre = self@;
                if let Some(waiter_id) = self.condvar_queues[cond].pop_front() {
                    proof {
                        assert(self@.conds =~= pre.conds.update(cond as int, pre.conds[cond as int].drop_first()));
                    }
                    self.next_queue.push_back(client);
                    self.mutex_holder = Some(waiter_id);
                    replies.push(waiter_id);
                } else {
                    proof {
                        assert(self@.conds =~= pre.conds);
                    }
                    replies.push(client);
                }
            },
            MonMessage::MonBroadcast(cond) => {
                let ghost pre = self@;
                let mut waiters: VecDeque<u32> = VecDeque::new();
                std::mem::swap(&mut waiters, &mut self.condvar_queues[cond]);
                proof {
                    assert(self@.conds =~= pre.conds.update(cond as int, Seq::empty()));
                }
                loop
                    invariant
                        cond < pre.conds.len(),
                        self@.enter + waiters@ == pre.enter + pre.conds[cond as int],
                        self@.holder == pre.holder,
                        self@.next == pre.next,
                        self@.conds == pre.conds.update(cond as int, Seq::empty()),
                    ensures
                        waiters@.len() == 0,
                        self@.enter + waiters@ == pre.enter + pre.conds[cond as int],
                        self@.holder == pre.holder,
                        self@.next == pre.next,
                        self@.conds == pre.conds.update(cond as int, Seq::empty()),
                    decreases waiters@.len(),
                {
                    match waiters.pop_front() {
                        Some(waiter_id) => {
                            self.enter_queue.push_back(waiter_id);
                        },
                        None => {
                            break;
                        },
                    }
                }
                assert(waiters@ =~= Seq::<u32>::empty());
                assert(self@.enter =~= pre.enter + pre.conds[cond as int]);
                replies.push(client);
            },
        }
        replies
    }
}

} // verus!

verus! {

/// `c` waits in some condition queue.
pub open spec fn in_conds(conds: Seq<Seq<u32>>, c: u32) -> bool {
    exists|i: int| 0 <= i < conds.len() && #[trigger] conds[i].contains(c)
}

/// `c` is parked in one of the server's queues and has not been replied to.
pub open spec fn blocked(m: MonitorModel, c: u32) -> bool {
    m.enter.contains(c) || m.next.contains(c) || in_conds(m.conds, c)
}

/// `c` takes part in the monitor: it holds it or waits in a queue.
pub open spec fn present(m: MonitorModel, c: u32) -> bool {
    m.holder == Some(c) || blocked(m, c)
}

/// Every client is in at most one place, at most once, and a free monitor has nobody
/// waiting to get in.
pub open spec fn wf(m: MonitorModel) -> bool {
    &&& queues_disjoint(m)
    &&& forall|c: u32| m.holder == Some(c) ==> !blocked(m, c)
    &&& (m.holder is None ==> m.enter.len() == 0 && m.next.len() == 0)
}

/// No queue holds a client twice and no client waits in two queues.
pub open spec fn queues_disjoint(m: MonitorModel) -> bool {
    &&& m.enter.no_duplicates()
    &&& m.next.no_duplicates()
    &&& forall|i: int| 0 <= i < m.conds.len() ==> (#[trigger] m.conds[i]).no_duplicates()
    &&& forall|c: u32| #[trigger] m.enter.contains(c) ==> !m.next.contains(c) && !in_conds(m.conds, c)
    &&& forall|c: u32| #[trigger] m.next.contains(c) ==> !in_conds(m.conds, c)
    &&& forall|i: int, j: int, c: u32|
        0 <= i < m.conds.len() && 0 <= j < m.conds.len() && i != j && #[trigger] m.conds[i].contains(c)
            ==> !#[trigger] m.conds[j].contains(c)
}

/// A request that a well-behaved client can send: a client that is parked sends
/// nothing, only a client outside the monitor enters or registers, and only the
/// holder leaves, waits, signals or broadcasts.
pub open spec fn legal(m: MonitorModel, client: u32, msg: MonMessage) -> bool {
    &&& condition_in_range(m, msg)
    &&& match msg {
        MonMessage::MonRegister => !blocked(m, client),
        MonMessage::MonEnter => !present(m, client),
        _ => m.holder == Some(client),
    }
}

proof fn lemma_drop_first_contains(s: Seq<u32>, c: u32)
    requires
        s.len() > 0,
    ensures
        s.contains(c) <==> (s[0] == c || s.drop_first().contains(c)),
        s.no_duplicates() ==> s.drop_first().no_duplicates() && !s.drop_first().contains(s[0]),
{
    if s.contains(c) {
        let k = choose|k: int| 0 <= k < s.len() && s[k] == c;
        if k > 0 {
            assert(s.drop_first()[k - 1] == c);
        }
    }
    if s.drop_first().contains(c) {
        let k = choose|k: int| 0 <= k < s.drop_first().len() && s.drop_first()[k] == c;
        assert(s[k + 1] == c);
    }
    if s.no_duplicates() {
        assert forall|a: int, b: int| 0 <= a < s.drop_first().len() && 0 <= b < s.drop_first().len() && a != b
            implies s.drop_first()[a] != s.drop_first()[b] by {
            assert(s[a + 1] == s.drop_first()[a]);
            assert(s[b + 1] == s.drop_first()[b]);
        }
        if s.drop_first().contains(s[0]) {
            let k = choose|k: int| 0 <= k < s.drop_first().len() && s.drop_first()[k] == s[0];
            assert(s[k + 1] == s[0]);
        }
    }
}

proof fn lemma_push_contains(s: Seq<u32>, x: u32, c: u32)
    ensures
        s.push(x).contains(c) <==> (s.contains(c) || x == c),
        s.no_duplicates() && !s.contains(x) ==> s.push(x).no_duplicates(),
{
    if s.contains(c) {
        let k = choose|k: int| 0 <= k < s.len() && s[k] == c;
        assert(s.push(x)[k] == c);
    }
    if x == c {
        assert(s.push(x)[s.len() as int] == c);
    }
    if s.push(x).contains(c) {
        let k = choose|k: int| 0 <= k < s.push(x).len() && s.push(x)[k] == c;
        if k < s.len() {
            assert(s[k] == c);
        }
    }
    if s.no_duplicates() && !s.contains(x) {
        assert forall|a: int, b: int| 0 <= a < s.push(x).len() && 0 <= b < s.push(x).len() && a != b
            implies s.push(x)[a] != s.push(x)[b] by {
            if a < s.len() && b < s.len() {
            } else if a < s.len() {
                assert(s.contains(s[a]));
            } else {
                assert(s.contains(s[b]));
            }
        }
    }
}

proof fn lemma_concat_contains(s: Seq<u32>, t: Seq<u32>, c: u32)
    ensures
        (s + t).contains(c) <==> (s.contains(c) || t.contains(c)),
{
    if s.contains(c) {
        let k = choose|k: int| 0 <= k < s.len() && s[k] == c;
        assert((s + t)[k] == c);
    }
    if t.contains(c) {
        let k = choose|k: int| 0 <= k < t.len() && t[k] == c;
        assert((s + t)[s.len() + k] == c);
    }
    if (s + t).contains(c) {
        let k = choose|k: int| 0 <= k < (s + t).len() && (s + t)[k] == c;
        if k < s.len() {
            assert(s[k] == c);
        } else {
            assert(t[k - s.len()] == c);
        }
    }
}

/// A freshly created monitor satisfies the invariant.
pub proof fn lemma_new_wf(num_conditions: nat)
    ensures
        wf(MonitorModel {
            holder: None,
            enter: Seq::empty(),
            next: Seq::empty(),
            conds: Seq::new(num_conditions, |i: int| Seq::<u32>::empty()),
        }),
{
}

} // verus!

verus! {

proof fn lemma_concat_no_duplicates(s: Seq<u32>, t: Seq<u32>)
    requires
        s.no_duplicates(),
        t.no_duplicates(),
        forall|c: u32| s.contains(c) ==> !t.contains(c),
    ensures
        (s + t).no_duplicates(),
{
    assert forall|a: int, b: int| 0 <= a < (s + t).len() && 0 <= b < (s + t).len() && a != b
        implies (s + t)[a] != (s + t)[b] by {
        if a < s.len() && b >= s.len() {
            assert(s.contains(s[a]));
            assert(t.contains(t[b - s.len()]));
        } else if a >= s.len() && b < s.len() {
            assert(s.contains(s[b]));
            assert(t.contains(t[a - s.len()]));
        }
    }
}

/// Membership in the condition queues after one of them is replaced by `q`.
proof fn lemma_in_conds_update(m: MonitorModel, i: int, q: Seq<u32>, c: u32)
    requires
        0 <= i < m.conds.len(),
    ensures
        in_conds(m.conds.update(i, q), c) <==> (q.contains(c) || exists|j: int|
            0 <= j < m.conds.len() && j != i && #[trigger] m.conds[j].contains(c)),
{
    let m2 = MonitorModel { conds: m.conds.update(i, q), ..m };
    if in_conds(m2.conds, c) {
        let j = choose|j: int| 0 <= j < m2.conds.len() && #[trigger] m2.conds[j].contains(c);
        if j != i {
            assert(m.conds[j] == m2.conds[j]);
        }
    }
    if q.contains(c) {
        assert(m2.conds[i] == q);
    }
    if exists|j: int| 0 <= j < m.conds.len() && j != i && #[trigger] m.conds[j].contains(c) {
        let j = choose|j: int| 0 <= j < m.conds.len() && j != i && #[trigger] m.conds[j].contains(c);
        assert(m2.conds[j] == m.conds[j]);
    }
}

/// Handing the monitor off keeps the queues disjoint and gives the monitor to a
/// client that no longer waits anywhere; exactly the clients that waited take part
/// afterwards.
proof fn lemma_hand_off_wf(m: MonitorModel)
    requires
        queues_disjoint(m),
    ensures
        wf(hand_off_spec(m).0),
        forall|c: u32| present(hand_off_spec(m).0, c) <==> blocked(m, c),
        hand_off_spec(m).1.len() <= 1,
        hand_off_spec(m).0.holder is Some <==> hand_off_spec(m).1.len() == 1,
        hand_off_spec(m).1.len() == 1 ==> hand_off_spec(m).0.holder == Some(hand_off_spec(m).1[0]),
{
    let h = hand_off_spec(m).0;
    assert(h.conds == m.conds);
    if m.next.len() > 0 {
        let w = m.next[0];
        assert(h.next == m.next.drop_first());
        assert(h.enter == m.enter);
        assert forall|c: u32| #[trigger] m.next.contains(c) <==> (m.next[0] == c || h.next.contains(c)) by {
            lemma_drop_first_contains(m.next, c);
        }
        lemma_drop_first_contains(m.next, w);
        assert(m.next.contains(w));
        assert(h.next.no_duplicates());
        assert forall|c: u32| #[trigger] h.next.contains(c) implies m.next.contains(c) by {
            lemma_drop_first_contains(m.next, c);
        }
        assert(queues_disjoint(h));
    } else if m.enter.len() > 0 {
        let w = m.enter[0];
        assert(h.enter == m.enter.drop_first());
        assert(h.next == m.next);
        assert forall|c: u32| #[trigger] m.enter.contains(c) <==> (m.enter[0] == c || h.enter.contains(c)) by {
            lemma_drop_first_contains(m.enter, c);
        }
        lemma_drop_first_contains(m.enter, w);
        assert(m.enter.contains(w));
        assert forall|c: u32| #[trigger] h.enter.contains(c) implies m.enter.contains(c) by {
            lemma_drop_first_contains(m.enter, c);
        }
        assert(queues_disjoint(h));
    }
}

/// Replies never go to a client that stays parked, nobody leaves a queue without
/// a reply, and the requester is answered unless it is parked.
pub open spec fn replies_consistent(m: MonitorModel, m2: MonitorModel, client: u32, r: Seq<u32>) -> bool {
    &&& r.no_duplicates()
    &&& forall|x: u32| #[trigger] r.contains(x) ==> !blocked(m2, x)
    &&& forall|x: u32| blocked(m, x) && !blocked(m2, x) ==> #[trigger] r.contains(x)
    &&& !blocked(m2, client) ==> r.contains(client)
}

/// Who takes part in the monitor after `client` sends `msg`: an entering client
/// joins, a leaving client goes, and every other request keeps the same clients.
pub open spec fn participants_after(m: MonitorModel, client: u32, msg: MonMessage, x: u32) -> bool {
    match msg {
        MonMessage::MonEnter => present(m, x) || x == client,
        MonMessage::MonLeave => present(m, x) && x != client,
        _ => present(m, x),
    }
}

#[verifier::spinoff_prover]
#[verifier::rlimit(50)]
proof fn lemma_step_facts(m: MonitorModel, client: u32, msg: MonMessage)
    requires
        wf(m),
        legal(m, client, msg),
    ensures
        wf(step_spec(m, client, msg).0),
        replies_consistent(m, step_spec(m, client, msg).0, client, step_spec(m, client, msg).1),
        forall|x: u32| present(step_spec(m, client, msg).0, x) <==> participants_after(m, client, msg, x),
{
    let (m2, r) = step_spec(m, client, msg);
    match msg {
        MonMessage::MonRegister => {
            assert(r =~= seq![client]);
            assert(r[0] == client);
            assert forall|x: u32| #[trigger] r.contains(x) implies x == client by {}
            assert(wf(m2));
            assert(replies_consistent(m, m2, client, r));
        },
        MonMessage::MonEnter => {
            assert(!blocked(m, client));
            if m.holder is None {
                assert(m2.conds == m.conds && m2.enter == m.enter && m2.next == m.next);
                assert(!blocked(m2, client));
                assert(r[0] == client);
                assert forall|x: u32| #[trigger] r.contains(x) implies x == client by {}
            } else {
                assert(m2.conds == m.conds && m2.holder == m.holder && m2.next == m.next);
                let hh = m.holder.unwrap();
                assert(hh != client);
                assert(!blocked(m, hh));
                lemma_push_contains(m.enter, client, hh);
                assert(!blocked(m2, hh));
                assert forall|x: u32| #[trigger] m2.enter.contains(x) <==> (m.enter.contains(x) || x == client) by {
                    lemma_push_contains(m.enter, client, x);
                }
                lemma_push_contains(m.enter, client, client);
                assert(queues_disjoint(m2));
            }
            assert forall|x: u32| present(m2, x) <==> participants_after(m, client, msg, x) by {
                if m.holder is Some {
                    lemma_push_contains(m.enter, client, x);
                }
            }
            assert(wf(m2));
            assert(replies_consistent(m, m2, client, r));
        },
        MonMessage::MonLeave => {
            lemma_hand_off_wf(m);
            let (h, hr) = hand_off_spec(m);
            assert forall|x: u32| #[trigger] r.contains(x) <==> (hr.contains(x) || x == client) by {
                lemma_push_contains(hr, client, x);
            }
            if hr.len() == 1 {
                assert(hr.contains(hr[0]));
                assert(blocked(m, hr[0]));
            }
            assert(!blocked(m, client));
            assert(!hr.contains(client));
            assert(hr.no_duplicates());
            lemma_push_contains(hr, client, client);
            assert(!blocked(m2, client));
            assert forall|x: u32| #[trigger] r.contains(x) implies !blocked(m2, x) by {
                if x != client {
                    assert(hr.contains(x));
                    assert(x == hr[0]);
                }
            }
            assert forall|x: u32| blocked(m, x) && !blocked(m2, x) implies #[trigger] r.contains(x) by {
                assert(present(m2, x));
                assert(hr.contains(hr[0]));
            }
            assert forall|x: u32| present(m2, x) <==> participants_after(m, client, msg, x) by {
                assert(present(h, x) <==> blocked(m, x));
            }
            assert(wf(m2));
            assert(replies_consistent(m, m2, client, r));
        },
        MonMessage::MonWait(c) => {
            let q = m.conds[c as int].push(client);
            let m1 = MonitorModel { conds: m.conds.update(c as int, q), ..m };
            assert forall|x: u32| #[trigger] in_conds(m1.conds, x) <==> (in_conds(m.conds, x) || x == client) by {
                lemma_in_conds_update(m, c as int, q, x);
                lemma_push_contains(m.conds[c as int], client, x);
                if in_conds(m.conds, x) {
                    let j = choose|j: int| 0 <= j < m.conds.len() && #[trigger] m.conds[j].contains(x);
                    if j != c as int {
                    }
                }
            }
            lemma_push_contains(m.conds[c as int], client, client);
            assert(!blocked(m, client));
            if m.conds[c as int].contains(client) {
                assert(in_conds(m.conds, client));
            }
            assert forall|i: int| 0 <= i < m1.conds.len() implies (#[trigger] m1.conds[i]).no_duplicates() by {
                if i == c as int {
                    assert(!m.conds[c as int].contains(client));
                }
            }
            assert forall|i: int, j: int, x: u32|
                0 <= i < m1.conds.len() && 0 <= j < m1.conds.len() && i != j && #[trigger] m1.conds[i].contains(x)
                implies !#[trigger] m1.conds[j].contains(x) by {
                lemma_push_contains(m.conds[c as int], client, x);
                if x == client {
                    if i != c as int {
                        assert(in_conds(m.conds, x));
                    }
                    if j != c as int && m1.conds[j].contains(x) {
                        assert(in_conds(m.conds, x));
                    }
                } else {
                    assert(m.conds[i].contains(x));
                    if m1.conds[j].contains(x) {
                        assert(m.conds[j].contains(x));
                    }
                }
            }
            assert(queues_disjoint(m1));
            lemma_hand_off_wf(m1);
            let (h, hr) = hand_off_spec(m1);
            assert(blocked(m1, client));
            if hr.len() == 1 {
                assert(hr.contains(hr[0]));
            }
            assert forall|x: u32| blocked(m, x) && !blocked(m2, x) implies #[trigger] r.contains(x) by {
                assert(m1.enter == m.enter && m1.next == m.next);
                if in_conds(m.conds, x) {
                    assert(in_conds(m1.conds, x));
                }
                assert(blocked(m1, x));
                assert(present(m2, x));
                assert(hr.contains(hr[0]));
            }
            assert forall|x: u32| present(m2, x) <==> participants_after(m, client, msg, x) by {
                assert(m1.enter == m.enter && m1.next == m.next);
                assert(present(h, x) <==> blocked(m1, x));
                assert(in_conds(m1.conds, x) <==> (in_conds(m.conds, x) || x == client));
            }
            assert(wf(m2));
            assert(replies_consistent(m, m2, client, r));
        },
        MonMessage::MonSignal(c) => {
            if m.conds[c as int].len() > 0 {
                let w = m.conds[c as int][0];
                let q = m.conds[c as int].drop_first();
                assert(!blocked(m, client));
                assert(m.conds[c as int].contains(w));
                assert(in_conds(m.conds, w));
                lemma_drop_first_contains(m.conds[c as int], w);
                assert forall|x: u32| #[trigger] in_conds(m2.conds, x) <==> (in_conds(m.conds, x) && x != w) by {
                    lemma_in_conds_update(m, c as int, q, x);
                    lemma_drop_first_contains(m.conds[c as int], x);
                    if in_conds(m.conds, x) {
                        let j = choose|j: int| 0 <= j < m.conds.len() && #[trigger] m.conds[j].contains(x);
                        if j != c as int {
                            assert(m2.conds[j].contains(x));
                        }
                    }
                    if x == w {
                        assert forall|j: int| 0 <= j < m.conds.len() && j != c as int implies !(#[trigger] m.conds[j].contains(x)) by {}
                    }
                }
                assert forall|x: u32| #[trigger] m2.next.contains(x) <==> (m.next.contains(x) || x == client) by {
                    lemma_push_contains(m.next, client, x);
                }
                lemma_push_contains(m.next, client, client);
                assert forall|i: int| 0 <= i < m2.conds.len() implies (#[trigger] m2.conds[i]).no_duplicates() by {
                    if i == c as int {
                        lemma_drop_first_contains(m.conds[c as int], w);
                    }
                }
                assert forall|i: int, j: int, x: u32|
                    0 <= i < m2.conds.len() && 0 <= j < m2.conds.len() && i != j && #[trigger] m2.conds[i].contains(x)
                    implies !#[trigger] m2.conds[j].contains(x) by {
                    lemma_drop_first_contains(m.conds[c as int], x);
                }
                assert(m2.enter.no_duplicates());
                assert(m2.next.no_duplicates());
                assert(forall|x: u32| #[trigger] m2.enter.contains(x) ==> !m2.next.contains(x));
                assert(forall|x: u32| #[trigger] m2.enter.contains(x) ==> !in_conds(m2.conds, x));
                assert(forall|x: u32| #[trigger] m2.next.contains(x) ==> !in_conds(m2.conds, x));
                assert(queues_disjoint(m2));
                assert(r =~= seq![w]);
                assert forall|x: u32| #[trigger] r.contains(x) implies x == w by {}
                assert(r[0] == w);
            } else {
                assert(r =~= seq![client]);
                assert forall|x: u32| #[trigger] r.contains(x) implies x == client by {}
                assert(r[0] == client);
            }
            assert forall|x: u32| present(m2, x) <==> participants_after(m, client, msg, x) by {
                if m.conds[c as int].len() > 0 {
                    assert(in_conds(m2.conds, x) <==> (in_conds(m.conds, x) && x != m.conds[c as int][0]));
                    assert(m2.next.contains(x) <==> (m.next.contains(x) || x == client));
                }
            }
            assert(wf(m2));
            assert(replies_consistent(m, m2, client, r));
        },
        MonMessage::MonBroadcast(c) => {
            let q = m.conds[c as int];
            assert forall|x: u32| #[trigger] m2.enter.contains(x) <==> (m.enter.contains(x) || q.contains(x)) by {
                lemma_concat_contains(m.enter, q, x);
            }
            assert(q.no_duplicates());
            assert forall|x: u32| m.enter.contains(x) implies !q.contains(x) by {
                if q.contains(x) {
                    assert(in_conds(m.conds, x));
                }
            }
            lemma_concat_no_duplicates(m.enter, q);
            assert forall|x: u32| #[trigger] in_conds(m2.conds, x) <==> (in_conds(m.conds, x) && !q.contains(x)) by {
                lemma_in_conds_update(m, c as int, Seq::empty(), x);
                if in_conds(m.conds, x) {
                    let j = choose|j: int| 0 <= j < m.conds.len() && #[trigger] m.conds[j].contains(x);
                    if j != c as int {
                        assert(m2.conds[j].contains(x));
                    }
                }
                if q.contains(x) {
                    assert forall|j: int| 0 <= j < m.conds.len() && j != c as int implies !(#[trigger] m.conds[j].contains(x)) by {}
                }
            }
            assert forall|x: u32| #[trigger] q.contains(x) implies in_conds(m.conds, x) by {}
            assert(!blocked(m, client));
            assert(!q.contains(client));
            assert(!in_conds(m2.conds, client));
            assert(!blocked(m2, client));
            assert forall|i: int| 0 <= i < m2.conds.len() implies (#[trigger] m2.conds[i]).no_duplicates() by {}
            assert(queues_disjoint(m2));
            assert(r =~= seq![client]);
            assert forall|x: u32| #[trigger] r.contains(x) implies x == client by {}
            assert(r[0] == client);
            assert forall|x: u32| present(m2, x) <==> participants_after(m, client, msg, x) by {
                assert(m2.enter.contains(x) <==> (m.enter.contains(x) || m.conds[c as int].contains(x)));
                assert(in_conds(m2.conds, x) <==> (in_conds(m.conds, x) && !m.conds[c as int].contains(x)));
            }
            assert(wf(m2));
            assert(replies_consistent(m, m2, client, r));
        },
    }
}

/// State after a sequence of requests, each a (client, request) pair, applied in order.
pub open spec fn run_spec(m: MonitorModel, reqs: Seq<(u32, MonMessage)>) -> MonitorModel
    decreases reqs.len(),
{
    if reqs.len() == 0 {
        m
    } else {
        run_spec(step_spec(m, reqs[0].0, reqs[0].1).0, reqs.drop_first())
    }
}

/// A request that leaves the monitor consistent: a legal one, or a registration
/// from any client (a registration changes no state).
pub open spec fn admissible(m: MonitorModel, client: u32, msg: MonMessage) -> bool {
    legal(m, client, msg) || msg is MonRegister
}

/// Every request of the sequence is admissible in the state it meets.
pub open spec fn all_admissible(m: MonitorModel, reqs: Seq<(u32, MonMessage)>) -> bool
    decreases reqs.len(),
{
    if reqs.len() == 0 {
        true
    } else {
        admissible(m, reqs[0].0, reqs[0].1) && all_admissible(step_spec(m, reqs[0].0, reqs[0].1).0, reqs.drop_first())
    }
}

/// Every admissible request keeps the monitor consistent: at most one client holds
/// it, the holder waits nowhere, no client waits in two queues or twice in one, and
/// a free monitor has nobody queued to get in.
pub proof fn law_step_preserves_wf(m: MonitorModel, client: u32, msg: MonMessage)
    requires
        wf(m),
        admissible(m, client, msg),
    ensures
        wf(step_spec(m, client, msg).0),
{
    if legal(m, client, msg) {
        lemma_step_facts(m, client, msg);
    }
}

/// Mutual exclusion over whole runs: starting from a fresh monitor, any sequence of
/// admissible requests leads to a consistent state (one holder at most, waiting
/// nowhere).
pub proof fn law_runs_stay_consistent(num_conditions: nat, reqs: Seq<(u32, MonMessage)>)
    requires
        all_admissible(
            MonitorModel {
                holder: None,
                enter: Seq::empty(),
                next: Seq::empty(),
                conds: Seq::new(num_conditions, |i: int| Seq::<u32>::empty()),
            },
            reqs,
        ),
    ensures
        wf(run_spec(
            MonitorModel {
                holder: None,
                enter: Seq::empty(),
                next: Seq::empty(),
                conds: Seq::new(num_conditions, |i: int| Seq::<u32>::empty()),
            },
            reqs,
        )),
{
    lemma_new_wf(num_conditions);
    lemma_run_wf(
        MonitorModel {
            holder: None,
            enter: Seq::empty(),
            next: Seq::empty(),
            conds: Seq::new(num_conditions, |i: int| Seq::<u32>::empty()),
        },
        reqs,
    );
}

proof fn lemma_run_wf(m: MonitorModel, reqs: Seq<(u32, MonMessage)>)
    requires
        wf(m),
        all_admissible(m, reqs),
    ensures
        wf(run_spec(m, reqs)),
    decreases reqs.len(),
{
    if reqs.len() > 0 {
        law_step_preserves_wf(m, reqs[0].0, reqs[0].1);
        lemma_run_wf(step_spec(m, reqs[0].0, reqs[0].1).0, reqs.drop_first());
    }
}

/// Replies match the queues: a replied client is not parked, every client that
/// stops waiting is replied to, nobody is replied to twice, and the requester is
/// answered unless the request parks it.
pub proof fn law_replies_match_queues(m: MonitorModel, client: u32, msg: MonMessage)
    requires
        wf(m),
        legal(m, client, msg),
    ensures
        replies_consistent(m, step_spec(m, client, msg).0, client, step_spec(m, client, msg).1),
{
    lemma_step_facts(m, client, msg);
}

/// No client is lost or invented: entering adds the requester, leaving removes it,
/// and every other request keeps the same set of clients in the monitor.
pub proof fn law_clients_conserved(m: MonitorModel, client: u32, msg: MonMessage)
    requires
        wf(m),
        legal(m, client, msg),
    ensures
        forall|x: u32| present(step_spec(m, client, msg).0, x) <==> participants_after(m, client, msg, x),
{
    lemma_step_facts(m, client, msg);
}

/// Hoare semantics of signal: when a client waits on the condition, the first one
/// gets the monitor at once and alone is replied to, and the signaler parks at the
/// back of the next queue; with nobody waiting the signaler just continues.
pub proof fn law_signal_hands_over(m: MonitorModel, client: u32, c: usize)
    requires
        wf(m),
        legal(m, client, MonMessage::MonSignal(c)),
    ensures
        m.conds[c as int].len() > 0 ==> {
            let (m2, r) = step_spec(m, client, MonMessage::MonSignal(c));
            &&& m2.holder == Some(m.conds[c as int][0])
            &&& m2.next == m.next.push(client)
            &&& m2.conds[c as int] == m.conds[c as int].drop_first()
            &&& m2.enter == m.enter
            &&& r == seq![m.conds[c as int][0]]
            &&& blocked(m2, client)
        },
        m.conds[c as int].len() == 0 ==> step_spec(m, client, MonMessage::MonSignal(c)) == (m, seq![client]),
{
    let (m2, r) = step_spec(m, client, MonMessage::MonSignal(c));
    if m.conds[c as int].len() > 0 {
        assert(m2.next[m.next.len() as int] == client);
    }
}

/// Releasing the monitor (leave or wait) favours a signaler waiting to resume over a
/// client waiting to enter, and frees the monitor only when nobody waits for it.
pub proof fn law_release_prefers_signalers(m: MonitorModel, client: u32, msg: MonMessage)
    requires
        wf(m),
        legal(m, client, msg),
        msg is MonLeave || msg is MonWait,
    ensures
        m.next.len() > 0 ==> step_spec(m, client, msg).0.holder == Some(m.next[0]),
        m.next.len() == 0 && m.enter.len() > 0 ==> step_spec(m, client, msg).0.holder == Some(m.enter[0]),
        m.next.len() == 0 && m.enter.len() == 0 ==> step_spec(m, client, msg).0.holder is None,
{
}

/// The server follows the same release rule as the monitors built on semaphores and
/// futexes: with any number of signalers parked (one is enough) the first of them
/// resumes; only with none does the monitor go to an entrant or become free.
pub proof fn law_server_follows_release_rule(m: MonitorModel, client: u32, msg: MonMessage)
    requires
        condition_in_range(m, msg),
        msg is MonLeave || msg is MonWait,
    ensures
        release_rule(m.next.len()) == Release::ResumeSignaler ==> step_spec(m, client, msg).0.holder == Some(
            m.next[0],
        ) && step_spec(m, client, msg).0.next == m.next.subrange(1, m.next.len() as int),
        release_rule(m.next.len()) == Release::FreeMonitor ==> step_spec(m, client, msg).0.next == m.next
            && step_spec(m, client, msg).0.holder == (if m.enter.len() > 0 {
            Some(m.enter[0])
        } else {
            None
        }),
{
}

/// Mesa semantics of broadcast: every waiter of the condition moves, in order, to the
/// back of the enter queue, and the broadcaster keeps the monitor and is replied to.
pub proof fn law_broadcast_moves_all_waiters(m: MonitorModel, client: u32, c: usize)
    requires
        wf(m),
        legal(m, client, MonMessage::MonBroadcast(c)),
    ensures
        ({
            let (m2, r) = step_spec(m, client, MonMessage::MonBroadcast(c));
            &&& m2.holder == Some(client)
            &&& m2.enter == m.enter + m.conds[c as int]
            &&& m2.conds[c as int].len() == 0
            &&& m2.next == m.next
            &&& r == seq![client]
        }),
{
}

} // verus!

verus! {

/// Entrants are served first come, first served. A busy monitor puts an entrant at
/// the back of the enter queue; when the holder leaves or waits with no signaler
/// parked, the entrant at the front gets the monitor and the others keep their
/// order; with a signaler parked, the signaler at the front of the next queue
/// resumes and the enter queue is untouched.
pub proof fn law_queues_are_fifo(m: MonitorModel, client: u32, msg: MonMessage)
    requires
        condition_in_range(m, msg),
    ensures
        msg is MonEnter && m.holder is Some ==> {
            let (m2, r) = step_spec(m, client, msg);
            &&& m2.enter == m.enter.push(client)
            &&& m2.holder == m.holder
            &&& r.len() == 0
        },
        msg is MonLeave && m.next.len() == 0 && m.enter.len() > 0 ==> {
            let (m2, r) = step_spec(m, client, msg);
            &&& m2.holder == Some(m.enter[0])
            &&& m2.enter == m.enter.subrange(1, m.enter.len() as int)
            &&& m2.next == m.next
            &&& r == seq![m.enter[0], client]
        },
        msg is MonWait && m.next.len() == 0 && m.enter.len() > 0 ==> {
            let (m2, r) = step_spec(m, client, msg);
            &&& m2.holder == Some(m.enter[0])
            &&& m2.enter == m.enter.subrange(1, m.enter.len() as int)
            &&& m2.next == m.next
            &&& r == seq![m.enter[0]]
        },
        (msg is MonLeave || msg is MonWait) && m.next.len() > 0 ==> {
            let (m2, r) = step_spec(m, client, msg);
            &&& m2.holder == Some(m.next[0])
            &&& m2.next == m.next.subrange(1, m.next.len() as int)
            &&& m2.enter == m.enter
            &&& r[0] == m.next[0]
        },
{
    let (m2, r) = step_spec(m, client, msg);
    if msg is MonLeave && m.next.len() == 0 && m.enter.len() > 0 {
        assert(r =~= seq![m.enter[0], client]);
    }
    if msg is MonWait && m.next.len() == 0 && m.enter.len() > 0 {
        assert(r =~= seq![m.enter[0]]);
    }
}

} // verus!
