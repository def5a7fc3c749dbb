//! Laws of the service, proved over the models of its operations.
use crate::domain::subscriber_email::email_is_valid;
use crate::domain::subscription_token::{is_ascii_alnum, is_token, parsed_token, TOKEN_LENGTH};
use crate::domain::SubscriptionStatus;
use crate::idempotency::key_is_valid;
use crate::newsletters::{publish_outcome, publish_response};
use crate::issue_delivery_worker::{attempt, attempts};
use crate::store::{
    first_free, issue_stored, confirmed_emails, tasks_for, tokens_not_owned_by, tokens_owned_by, IssueView,
    StoreView, TaskView, TokenView,
};
use crate::subscriptions::{subscribe_outcome, SubscribeRefusal};
use crate::subscriptions_confirm::{confirm_outcome, ConfirmRefusal};
use vstd::prelude::*;

verus! {

/// Every value that `SubscriptionToken::generate` can return parses back to
/// a token with the same characters.
pub proof fn lemma_token_round_trip(t: Seq<char>)
    requires
        is_token(t),
    ensures
        parsed_token(t) == Some(t),
{
}

/// A string of the wrong length, or holding a character other than an ASCII
/// letter or digit, is refused by `SubscriptionToken::parse`; the empty
/// string among them.
pub proof fn lemma_token_rejection(s: Seq<char>)
    requires
        s.len() != TOKEN_LENGTH || exists|i: int| 0 <= i < s.len() && !is_ascii_alnum(s[i]),
    ensures
        parsed_token(s) is None,
{
}

/// No token of subscriber `id` survives the deletion of its tokens.
proof fn lemma_no_tokens_left(ts: Seq<TokenView>, id: u128)
    ensures
        tokens_owned_by(tokens_not_owned_by(ts, id), id).len() == 0,
    decreases ts.len(),
{
    reveal(Seq::filter);
    if ts.len() > 0 {
        lemma_no_tokens_left(ts.drop_last(), id);
        let rest = tokens_not_owned_by(ts.drop_last(), id);
        if ts.last().subscriber_id != id {
            assert(tokens_not_owned_by(ts, id) == rest.push(ts.last()));
            assert(rest.push(ts.last()).drop_last() =~= rest);
        } else {
            assert(tokens_not_owned_by(ts, id) == rest);
        }
    }
}

/// The token that confirmed its subscriber is no longer stored.
proof fn lemma_used_token_gone(s: StoreView, t: Seq<char>, id: u128)
    requires
        s.wf(),
        s.token_owner(t) == Some(id),
    ensures
        s.without_tokens_of(id).token_index(t) is None,
{
    let ts = s.tokens;
    let kept = tokens_not_owned_by(ts, id);
    let idx = s.token_index(t)->0;
    assert(ts[idx].token == t);
    if exists|k: int| 0 <= k < kept.len() && kept[k].token == t {
        let k = choose|k: int| 0 <= k < kept.len() && kept[k].token == t;
        assert(kept.contains(kept[k]));
        ts.lemma_filter_contains_rev(|x: TokenView| x.subscriber_id != id, kept[k]);
        let j = choose|j: int| 0 <= j < ts.len() && ts[j] == kept[k];
        assert(ts[j].token == ts[idx].token);
        assert(j == idx);
    }
}

/// Confirming with any stored token of a subscriber confirms it and leaves
/// none of its tokens behind, however many were outstanding.
pub proof fn lemma_confirmation_consumes_all_tokens(s: StoreView, t: Seq<char>, id: u128)
    requires
        s.wf(),
        is_token(t),
        s.token_owner(t) == Some(id),
        s.id_index(id) is Some,
    ensures
        confirm_outcome(s, t) matches Ok(after) && after.tokens_of(id).len() == 0
            && after.subscriptions[s.id_index(id)->0].status == SubscriptionStatus::Confirmed,
{
    lemma_no_tokens_left(s.tokens, id);
}

/// A token confirms once: the second confirmation with it is unauthorized
/// and changes nothing.
pub proof fn lemma_confirmation_is_single_use(s: StoreView, t: Seq<char>)
    requires
        s.wf(),
    ensures
        confirm_outcome(s, t) matches Ok(after) ==> confirm_outcome(after, t) == Err::<
            StoreView,
            ConfirmRefusal,
        >(ConfirmRefusal::UnauthorizedToken),
{
    if let Ok(after) = confirm_outcome(s, t) {
        let id = s.token_owner(t)->0;
        lemma_used_token_gone(s, t, id);
        assert(after.tokens == s.without_tokens_of(id).tokens);
    }
}

/// Subscribing a new address, then subscribing it again while it is pending,
/// succeeds both times under the same subscriber id, and each time stores a
/// new token of that subscriber. Once a token confirms the subscription, a
/// third subscription of the address is refused as already confirmed.
pub proof fn lemma_resubscribe(
    s: StoreView,
    email: Seq<char>,
    name: Seq<char>,
    ids: (u128, u128, u128),
    tokens: (Seq<char>, Seq<char>, Seq<char>),
    times: (i64, i64, i64),
)
    requires
        s.wf(),
        s.email_index(email) is None,
        s.id_index(ids.0) is None,
        s.token_index(tokens.0) is None,
        s.token_index(tokens.1) is None,
        tokens.0 != tokens.1,
        is_token(tokens.1),
    ensures
        ({
            let r1 = subscribe_outcome(s, email, name, ids.0, tokens.0, times.0);
            &&& r1 is Ok
            &&& r1->Ok_0.1 == ids.0
            &&& {
                let s1 = r1->Ok_0.0;
                let r2 = subscribe_outcome(s1, email, name, ids.1, tokens.1, times.1);
                &&& r2 is Ok
                &&& r2->Ok_0.1 == ids.0
                &&& {
                    let s2 = r2->Ok_0.0;
                    &&& s2.token_owner(tokens.0) == Some(ids.0)
                    &&& s2.token_owner(tokens.1) == Some(ids.0)
                    &&& confirm_outcome(s2, tokens.1) is Ok
                    &&& subscribe_outcome(
                        confirm_outcome(s2, tokens.1)->Ok_0,
                        email,
                        name,
                        ids.2,
                        tokens.2,
                        times.2,
                    ) == Err::<(StoreView, u128), SubscribeRefusal>(
                        SubscribeRefusal::AlreadyConfirmed,
                    )
                }
            }
        }),
{
    let (id1, id2, id3) = ids;
    let (t1, t2, t3) = tokens;
    let n = s.subscriptions.len() as int;
    let m = s.tokens.len() as int;
    let r1 = subscribe_outcome(s, email, name, id1, t1, times.0);
    let s1 = r1->Ok_0.0;
    assert(s1.subscriptions[n].email == email);
    assert(s1.email_index(email) == Some(n)) by {
        let k = choose|k: int| 0 <= k < s1.subscriptions.len() && s1.subscriptions[k].email == email;
        if k < n {
            assert(s.subscriptions[k].email == email);
        }
    }
    assert(s1.token_index(t2) is None) by {
        if exists|k: int| 0 <= k < s1.tokens.len() && s1.tokens[k].token == t2 {
            let k = choose|k: int| 0 <= k < s1.tokens.len() && s1.tokens[k].token == t2;
            if k < m {
                assert(s.tokens[k].token == t2);
            }
        }
    }
    let r2 = subscribe_outcome(s1, email, name, id2, t2, times.1);
    let s2 = r2->Ok_0.0;
    assert(s2.tokens[m].token == t1);
    assert(s2.tokens[m + 1].token == t2);
    assert(s2.token_index(t1) == Some(m)) by {
        let k = choose|k: int| 0 <= k < s2.tokens.len() && s2.tokens[k].token == t1;
        if k < m {
            assert(s.tokens[k].token == t1);
        }
    }
    assert(s2.token_index(t2) == Some(m + 1)) by {
        let k = choose|k: int| 0 <= k < s2.tokens.len() && s2.tokens[k].token == t2;
        if k < m {
            assert(s.tokens[k].token == t2);
        }
    }
    assert(s2.subscriptions[n].id == id1);
    assert(s2.id_index(id1) == Some(n)) by {
        let k = choose|k: int| 0 <= k < s2.subscriptions.len() && s2.subscriptions[k].id == id1;
        if k < n {
            assert(s.subscriptions[k].id == id1);
        }
    }
    let s3 = confirm_outcome(s2, t2)->Ok_0;
    assert(s3.subscriptions[n].email == email);
    assert(s3.email_index(email) == Some(n)) by {
        let k = choose|k: int| 0 <= k < s3.subscriptions.len() && s3.subscriptions[k].email == email;
        if k < n {
            assert(s.subscriptions[k].email == email);
        }
    }
}

/// Two submissions of the same (user, key) pair, in either order of
/// arrival: the second returns exactly the response of the first and
/// changes nothing, so one issue and one set of tasks exist, whatever the
/// second submission carries and whichever id it would have given its issue.
pub proof fn lemma_idempotent_publish(
    s: StoreView,
    user_id: u128,
    key: Seq<char>,
    first: (Seq<char>, Seq<char>, Seq<char>, u128, i64),
    second: (Seq<char>, Seq<char>, Seq<char>, u128, i64),
)
    requires
        s.wf(),
        key_is_valid(key),
        s.record_index(user_id, key) is None,
        s.issue_index(first.3) is None,
    ensures
        ({
            let r1 = publish_outcome(s, user_id, key, first.0, first.1, first.2, first.3, first.4);
            &&& r1 is Ok
            &&& publish_outcome(
                r1->Ok_0.0,
                user_id,
                key,
                second.0,
                second.1,
                second.2,
                second.3,
                second.4,
            ) == r1
        }),
{
    let n = s.ledger.len() as int;
    let r1 = publish_outcome(s, user_id, key, first.0, first.1, first.2, first.3, first.4);
    let rec = crate::store::RecordView { user_id, key, created_at: first.4, response: None };
    let sr = s.with_record(rec);
    assert(sr.ledger[n].user_id == user_id && sr.ledger[n].key == key);
    assert(sr.record_index(user_id, key) == Some(n)) by {
        let k = choose|k: int|
            0 <= k < sr.ledger.len() && sr.ledger[k].user_id == user_id && sr.ledger[k].key == key;
        if k < n {
            assert(s.ledger[k].user_id == user_id && s.ledger[k].key == key);
        }
    }
    assert(sr.issue_index(first.3) is None);
    let issue = IssueView {
        id: first.3,
        title: first.0,
        text_content: first.2,
        html_content: first.1,
        published_at: first.4,
    };
    let s2 = sr.with_issue(issue).with_tasks_for(first.3);
    assert(s2.ledger == sr.ledger);
    assert(s2.record_index(user_id, key) == Some(n));
    let s1 = r1->Ok_0.0;
    assert(s1 == s2.with_response(user_id, key, publish_response()));
    assert(s1.ledger[n].user_id == user_id && s1.ledger[n].key == key);
    assert(s1.record_index(user_id, key) == Some(n)) by {
        let k = choose|k: int|
            0 <= k < s1.ledger.len() && s1.ledger[k].user_id == user_id && s1.ledger[k].key == key;
        if k < n {
            assert(s.ledger[k].user_id == user_id && s.ledger[k].key == key);
        }
    }
}

/// A first publication stores one issue and queues exactly one task of it
/// for each confirmed subscriber, in table order; pending subscribers get
/// none.
pub proof fn lemma_publish_fan_out(
    s: StoreView,
    user_id: u128,
    key: Seq<char>,
    title: Seq<char>,
    html: Seq<char>,
    text: Seq<char>,
    issue_id: u128,
    now: i64,
)
    requires
        s.wf(),
        key_is_valid(key),
        s.record_index(user_id, key) is None,
        s.issue_index(issue_id) is None,
    ensures
        publish_outcome(s, user_id, key, title, html, text, issue_id, now) matches Ok((after, _))
            && after.queue == s.queue + tasks_for(issue_id, confirmed_emails(s.subscriptions))
            && after.issues == s.issues.push(
            IssueView { id: issue_id, title, text_content: text, html_content: html, published_at: now },
        ) && after.subscriptions == s.subscriptions,
{
}

/// Marking a subscriber confirmed twice is the same as marking it once.
pub proof fn lemma_mark_confirmed_idempotent(s: StoreView, id: u128)
    requires
        s.wf(),
    ensures
        s.with_confirmed(id).with_confirmed(id) == s.with_confirmed(id),
{
    let once = s.with_confirmed(id);
    if let Some(i) = s.id_index(id) {
        assert(once.subscriptions[i].id == id);
        assert(once.id_index(id) == Some(i)) by {
            let k = choose|k: int|
                0 <= k < once.subscriptions.len() && once.subscriptions[k].id == id;
            if k != i {
                assert(s.subscriptions[k].id == id);
            }
        }
        assert(once.with_confirmed(id).subscriptions =~= once.subscriptions);
    }
}

/// Subscriptions are only ever added, and a confirmed one stays confirmed
/// with the same id and address: neither subscribing nor confirming can
/// take a subscription back to pending.
pub proof fn lemma_confirmation_is_permanent(
    s: StoreView,
    email: Seq<char>,
    name: Seq<char>,
    fresh_id: u128,
    token: Seq<char>,
    now: i64,
    raw: Seq<char>,
)
    ensures
        subscribe_outcome(s, email, name, fresh_id, token, now) matches Ok((after, _)) ==> kept_confirmed(s, after),
        confirm_outcome(s, raw) matches Ok(after) ==> kept_confirmed(s, after),
{
}

/// Every subscription of `before` is still in `after` at the same position,
/// with the same id and address, and confirmed if it was.
pub open spec fn kept_confirmed(before: StoreView, after: StoreView) -> bool {
    &&& before.subscriptions.len() <= after.subscriptions.len()
    &&& forall|i: int|
        0 <= i < before.subscriptions.len() ==> {
            &&& #[trigger] after.subscriptions[i].id == before.subscriptions[i].id
            &&& after.subscriptions[i].email == before.subscriptions[i].email
            &&& (before.subscriptions[i].status == SubscriptionStatus::Confirmed
                ==> after.subscriptions[i].status == SubscriptionStatus::Confirmed)
        }
}

/// How many of the tasks have an address that passes validation.
pub open spec fn valid_count(q: Seq<TaskView>) -> nat
    decreases q.len(),
{
    if q.len() == 0 {
        0
    } else {
        (if email_is_valid(q[0].subscriber_email) {
            1nat
        } else {
            0nat
        }) + valid_count(q.drop_first())
    }
}

/// Marking the task at `i` and then deleting its key removes exactly that
/// task.
proof fn lemma_take_then_delete(s: StoreView, i: int)
    requires
        s.wf(),
        0 <= i < s.queue.len(),
    ensures
        s.with_taken(i).without_task(s.queue[i].issue_id, s.queue[i].subscriber_email)
            == (StoreView { queue: s.queue.remove(i), ..s }),
{
    let q = s.queue;
    let m = s.with_taken(i);
    let t = q[i];
    assert(m.queue[i].issue_id == t.issue_id && m.queue[i].subscriber_email == t.subscriber_email);
    let c = choose|c: int|
        0 <= c < m.queue.len() && m.queue[c].issue_id == t.issue_id && m.queue[c].subscriber_email
            == t.subscriber_email;
    assert(q[c].issue_id == m.queue[c].issue_id);
    assert(c == i);
    assert(m.task_index(t.issue_id, t.subscriber_email) == Some(i));
    assert(m.queue.remove(i) =~= q.remove(i));
}

/// Deleting a task keeps the tables well formed.
proof fn lemma_remove_task_wf(s: StoreView, i: int)
    requires
        s.wf(),
        0 <= i < s.queue.len(),
    ensures
        (StoreView { queue: s.queue.remove(i), ..s }).wf(),
{
    let q = s.queue;
    let r = q.remove(i);
    assert forall|k: int| 0 <= k < r.len() implies issue_stored(s.issues, #[trigger] r[k].issue_id) by {
        let k0 = if k < i { k } else { k + 1 };
        assert(r[k] == q[k0]);
    }
    assert forall|a: int, b: int|
        0 <= a < r.len() && 0 <= b < r.len() && a != b implies !(#[trigger] r[a].issue_id
        == #[trigger] r[b].issue_id && r[a].subscriber_email == r[b].subscriber_email) by {
        let a0 = if a < i { a } else { a + 1 };
        let b0 = if b < i { b } else { b + 1 };
        assert(r[a] == q[a0] && r[b] == q[b0]);
    }
}

/// With no task held by any worker, as many attempts as there are tasks
/// empty the queue, and send one email per task whose address is valid
/// (with every address valid, one per task); the next attempt finds no task.
pub proof fn lemma_worker_drains_queue(s: StoreView)
    requires
        s.wf(),
        forall|i: int| 0 <= i < s.queue.len() ==> !#[trigger] s.queue[i].in_flight,
    ensures
        attempts(s, s.queue.len()) == (StoreView { queue: Seq::empty(), ..s }, valid_count(s.queue)),
        first_free(Seq::<TaskView>::empty()) is None,
    decreases s.queue.len(),
{
    let q = s.queue;
    if q.len() > 0 {
        assert(!q[0].in_flight);
        assert(first_free(q) == Some(0int)) by {
            let f = choose|f: int|
                0 <= f < q.len() && !q[f].in_flight && forall|j: int| 0 <= j < f ==> q[j].in_flight;
            if f > 0 {
                assert(q[0].in_flight);
            }
        }
        lemma_take_then_delete(s, 0);
        lemma_remove_task_wf(s, 0);
        let s1 = StoreView { queue: q.remove(0), ..s };
        assert(q.remove(0) =~= q.drop_first());
        assert(attempt(s).0 == s1);
        assert forall|i: int| 0 <= i < s1.queue.len() implies !#[trigger] s1.queue[i].in_flight by {
            assert(s1.queue[i] == q[i + 1]);
        }
        lemma_worker_drains_queue(s1);
        assert(StoreView { queue: Seq::empty(), ..s1 } == StoreView { queue: Seq::empty(), ..s });
    } else {
        assert(q =~= Seq::<TaskView>::empty());
    }
}

/// An attempt whose task has an address that fails validation sends
/// nothing and deletes the task: no task with its key is left.
pub proof fn lemma_worker_skips_invalid_address(s: StoreView)
    requires
        s.wf(),
        first_free(s.queue) is Some,
        !email_is_valid(s.queue[first_free(s.queue)->0].subscriber_email),
    ensures
        ({
            let t = s.queue[first_free(s.queue)->0];
            &&& attempt(s).1 == 0
            &&& attempt(s).0.task_index(t.issue_id, t.subscriber_email) is None
            &&& attempt(s).0.queue.len() == s.queue.len() - 1
        }),
{
    let q = s.queue;
    let i = first_free(q)->0;
    let f = choose|f: int|
        0 <= f < q.len() && !q[f].in_flight && forall|j: int| 0 <= j < f ==> q[j].in_flight;
    assert(f == i);
    let t = q[i];
    lemma_take_then_delete(s, i);
    let r = q.remove(i);
    if exists|k: int| 0 <= k < r.len() && r[k].issue_id == t.issue_id && r[k].subscriber_email == t.subscriber_email {
        let k = choose|k: int| 0 <= k < r.len() && r[k].issue_id == t.issue_id && r[k].subscriber_email == t.subscriber_email;
        let k0 = if k < i { k } else { k + 1 };
        assert(r[k] == q[k0]);
        assert(q[k0].issue_id == q[i].issue_id);
    }
}

} // verus!
