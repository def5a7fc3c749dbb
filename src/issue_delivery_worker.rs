//! The delivery worker's decisions. One attempt takes the first task that no
//! other worker holds, marks it in flight, works out what to send, and after
//! the send (whatever its result) deletes the task: delivery is at least
//! once, never retried. A worker that cannot go on releases its task.
use crate::domain::subscriber_email::email_is_valid;
use crate::domain::SubscriberEmail;
use crate::store::{first_free, issue_stored, queue_wf, IssueView, Store, StoreView, TaskView};
use vstd::prelude::*;

verus! {

/// Pause after an attempt that found no free task, in milliseconds.
pub const EMPTY_QUEUE_DELAY_MS: u64 = 10_000;

/// How an attempt ended.
#[derive(PartialEq, Eq, Structural, Clone, Copy, Debug)]
pub enum ExecutionOutcome {
    TaskCompleted,
    EmptyQueue,
}

/// One email to hand to the transport.
pub struct OutgoingEmail {
    pub recipient: SubscriberEmail,
    pub subject: String,
    pub html_content: String,
    pub text_content: String,
}

/// What to do with a dequeued task.
pub enum Delivery {
    /// Send this email.
    Send(OutgoingEmail),
    /// The stored address fails validation: send nothing.
    Skip,
}

/// A task handed to one worker, and what to do with it.
pub struct DequeuedTask {
    pub issue_id: u128,
    pub subscriber_email: String,
    pub delivery: Delivery,
}

/// The issue a queued task belongs to.
pub open spec fn issue_of(s: StoreView, t: TaskView) -> IssueView {
    s.issues[s.issue_index(t.issue_id)->0]
}

/// The email that `t` asks for, from issue `issue`.
pub open spec fn email_for(m: OutgoingEmail, t: TaskView, issue: IssueView) -> bool {
    m.recipient@ == t.subscriber_email && m.subject@ == issue.title && m.html_content@
        == issue.html_content && m.text_content@ == issue.text_content
}

/// One whole attempt (take the first free task, then delete it): the
/// tables after it, and how many emails it sent.
pub open spec fn attempt(s: StoreView) -> (StoreView, nat) {
    match first_free(s.queue) {
        None => (s, 0),
        Some(i) => {
            let t = s.queue[i];
            (
                s.with_taken(i).without_task(t.issue_id, t.subscriber_email),
                if email_is_valid(t.subscriber_email) {
                    1
                } else {
                    0
                },
            )
        },
    }
}

/// `n` attempts in a row: the tables after them, and the emails sent.
pub open spec fn attempts(s: StoreView, n: nat) -> (StoreView, nat)
    decreases n,
{
    if n == 0 {
        (s, 0)
    } else {
        let (s1, k) = attempt(s);
        let (s2, m) = attempts(s1, (n - 1) as nat);
        (s2, k + m)
    }
}

/// The first free task is in the queue and free.
proof fn lemma_first_free_is_free(q: Seq<TaskView>, i: int)
    requires
        first_free(q) == Some(i),
    ensures
        0 <= i < q.len(),
        !q[i].in_flight,
{
}

/// A queued task is the only one with its key, and its issue is stored.
proof fn lemma_task_is_keyed(s: StoreView, i: int)
    requires
        queue_wf(s.queue, s.issues),
        0 <= i < s.queue.len(),
    ensures
        s.task_index(s.queue[i].issue_id, s.queue[i].subscriber_email) == Some(i),
        s.issue_index(s.queue[i].issue_id) is Some,
{
    let q = s.queue;
    assert(issue_stored(s.issues, q[i].issue_id));
    let c = choose|c: int|
        0 <= c < q.len() && q[c].issue_id == q[i].issue_id && q[c].subscriber_email
            == q[i].subscriber_email;
    assert(q[c].issue_id == q[i].issue_id);
    assert(c == i);
}

/// The task with key (`issue_id`, `email`) was free in `before` and is in
/// flight in `after`: a task already held is never handed out again.
pub open spec fn taken_free_task(before: StoreView, after: StoreView, issue_id: u128, email: Seq<char>) -> bool {
    match before.task_index(issue_id, email) {
        Some(i) => !before.queue[i].in_flight && after.queue[i].in_flight,
        None => false,
    }
}

impl Store {
    /// Hands the caller the first task that no worker holds and marks it in
    /// flight, so that no other worker is handed it; says what to send.
    /// Nothing is handed out when every task is held or the queue is empty.
    pub fn dequeue_task(&mut self) -> (r: Option<DequeuedTask>)
        requires
            old(self)@.wf(),
        ensures
            final(self)@.wf(),
            match first_free(old(self)@.queue) {
                None => r is None && final(self)@ == old(self)@,
                Some(i) => {
                    let t = old(self)@.queue[i];
                    &&& final(self)@ == old(self)@.with_taken(i)
                    &&& r matches Some(d)
                    &&& d.issue_id == t.issue_id
                    &&& d.subscriber_email@ == t.subscriber_email
                    &&& if email_is_valid(t.subscriber_email) {
                        d.delivery matches Delivery::Send(m) && email_for(
                            m,
                            t,
                            issue_of(old(self)@, t),
                        )
                    } else {
                        d.delivery is Skip
                    }
                },
            },
            r is None ==> forall|j: int|
                0 <= j < old(self)@.queue.len() ==> #[trigger] old(self)@.queue[j].in_flight,
            r matches Some(d) ==> taken_free_task(old(self)@, final(self)@, d.issue_id, d.subscriber_email@),
    {
        let i = match self.first_free_task() {
            None => {
                return None;
            },
            Some(i) => i,
        };
        let ghost s0 = self@;
        proof {
            lemma_first_free_is_free(s0.queue, i as int);
            lemma_task_is_keyed(s0, i as int);
        }
        let task = self.task(i);
        let issue_id = task.issue_id;
        let email = task.subscriber_email.clone();
        let delivery = match SubscriberEmail::parse(task.subscriber_email.clone()) {
            Err(_) => Delivery::Skip,
            Ok(recipient) => {
                let k = match self.find_issue(issue_id) {
                    Some(k) => k,
                    None => {
                        proof {
                            assert(false);
                        }
                        return None;
                    },
                };
                let issue = self.issue(k);
                Delivery::Send(
                    OutgoingEmail {
                        recipient,
                        subject: issue.title.clone(),
                        html_content: issue.html_content.clone(),
                        text_content: issue.text_content.clone(),
                    },
                )
            },
        };
        self.mark_task(i);
        assert(self@.queue[i as int].in_flight);
        assert(taken_free_task(s0, self@, issue_id, email@));
        Some(DequeuedTask { issue_id, subscriber_email: email, delivery })
    }

    /// Deletes the task once its send was tried, whether it succeeded or not.
    pub fn finish_task(&mut self, task: &DequeuedTask) -> (r: ExecutionOutcome)
        requires
            old(self)@.wf(),
        ensures
            final(self)@.wf(),
            final(self)@ == old(self)@.without_task(task.issue_id, task.subscriber_email@),
            r == ExecutionOutcome::TaskCompleted,
    {
        self.delete_task(task.issue_id, task.subscriber_email.as_str());
        ExecutionOutcome::TaskCompleted
    }

    /// Gives the task back to the queue without trying it, for another
    /// attempt later.
    pub fn abandon_task(&mut self, task: &DequeuedTask)
        requires
            old(self)@.wf(),
        ensures
            final(self)@.wf(),
            final(self)@ == old(self)@.with_released(task.issue_id, task.subscriber_email@),
    {
        self.release_task(task.issue_id, task.subscriber_email.as_str());
    }
}

/// How long the loop waits before the next attempt: not at all after a
/// completed task, a while when no task was free.
pub fn next_delay_ms(outcome: ExecutionOutcome) -> (r: u64)
    ensures
        r == match outcome {
            ExecutionOutcome::TaskCompleted => 0,
            ExecutionOutcome::EmptyQueue => EMPTY_QUEUE_DELAY_MS,
        },
{
    match outcome {
        ExecutionOutcome::TaskCompleted => 0,
        ExecutionOutcome::EmptyQueue => EMPTY_QUEUE_DELAY_MS,
    }
}

} // verus!
