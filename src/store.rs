//! The storage model: the tables that subscriptions, confirmation tokens,
//! newsletter issues, the delivery queue and the idempotency ledger live in.
//! Every operation here is one atomic step on the tables; the flows of the
//! service are built from them elsewhere.
use crate::domain::subscription_token::is_token;
use crate::domain::SubscriptionStatus;
use vstd::prelude::*;

verus! {

/// A row of the subscriptions table.
pub struct Subscription {
    pub id: u128,
    pub email: String,
    pub name: String,
    pub subscribed_at: i64,
    pub status: SubscriptionStatus,
}

pub struct SubscriptionView {
    pub id: u128,
    pub email: Seq<char>,
    pub name: Seq<char>,
    pub subscribed_at: i64,
    pub status: SubscriptionStatus,
}

impl View for Subscription {
    type V = SubscriptionView;

    open spec fn view(&self) -> SubscriptionView {
        SubscriptionView {
            id: self.id,
            email: self.email@,
            name: self.name@,
            subscribed_at: self.subscribed_at,
            status: self.status,
        }
    }
}

/// A row of the confirmation tokens table.
pub struct TokenRecord {
    pub token: String,
    pub subscriber_id: u128,
}

pub struct TokenView {
    pub token: Seq<char>,
    pub subscriber_id: u128,
}

impl View for TokenRecord {
    type V = TokenView;

    open spec fn view(&self) -> TokenView {
        TokenView { token: self.token@, subscriber_id: self.subscriber_id }
    }
}

/// A published newsletter issue.
pub struct NewsletterIssue {
    pub id: u128,
    pub title: String,
    pub text_content: String,
    pub html_content: String,
    pub published_at: i64,
}

pub struct IssueView {
    pub id: u128,
    pub title: Seq<char>,
    pub text_content: Seq<char>,
    pub html_content: Seq<char>,
    pub published_at: i64,
}

impl View for NewsletterIssue {
    type V = IssueView;

    open spec fn view(&self) -> IssueView {
        IssueView {
            id: self.id,
            title: self.title@,
            text_content: self.text_content@,
            html_content: self.html_content@,
            published_at: self.published_at,
        }
    }
}

/// One pending send of an issue to one address, keyed by the pair. A task
/// handed to a worker is marked in flight until the worker deletes or
/// releases it; no other worker is handed it meanwhile.
pub struct DeliveryTask {
    pub issue_id: u128,
    pub subscriber_email: String,
    pub in_flight: bool,
}

pub struct TaskView {
    pub issue_id: u128,
    pub subscriber_email: Seq<char>,
    pub in_flight: bool,
}

impl View for DeliveryTask {
    type V = TaskView;

    open spec fn view(&self) -> TaskView {
        TaskView {
            issue_id: self.issue_id,
            subscriber_email: self.subscriber_email@,
            in_flight: self.in_flight,
        }
    }
}

/// A response header: its name and its raw value bytes.
pub struct HeaderPair {
    pub name: String,
    pub value: Vec<u8>,
}

impl View for HeaderPair {
    type V = (Seq<char>, Seq<u8>);

    open spec fn view(&self) -> (Seq<char>, Seq<u8>) {
        (self.name@, self.value@)
    }
}

/// A complete HTTP response as the ledger keeps it.
pub struct SavedResponse {
    pub status_code: u16,
    pub headers: Vec<HeaderPair>,
    pub body: Vec<u8>,
}

pub struct ResponseView {
    pub status_code: u16,
    pub headers: Seq<(Seq<char>, Seq<u8>)>,
    pub body: Seq<u8>,
}

impl View for SavedResponse {
    type V = ResponseView;

    open spec fn view(&self) -> ResponseView {
        ResponseView {
            status_code: self.status_code,
            headers: self.headers@.map_values(|h: HeaderPair| h@),
            body: self.body@,
        }
    }
}

/// A row of the idempotency ledger: reserved while `response` is `None`,
/// completed once it holds the saved response.
pub struct IdempotencyRecord {
    pub user_id: u128,
    pub key: String,
    pub created_at: i64,
    pub response: Option<SavedResponse>,
}

pub struct RecordView {
    pub user_id: u128,
    pub key: Seq<char>,
    pub created_at: i64,
    pub response: Option<ResponseView>,
}

impl View for IdempotencyRecord {
    type V = RecordView;

    open spec fn view(&self) -> RecordView {
        RecordView {
            user_id: self.user_id,
            key: self.key@,
            created_at: self.created_at,
            response: match self.response {
                Some(r) => Some(r@),
                None => None,
            },
        }
    }
}

/// The contents of all tables.
pub struct StoreView {
    pub subscriptions: Seq<SubscriptionView>,
    pub tokens: Seq<TokenView>,
    pub issues: Seq<IssueView>,
    pub queue: Seq<TaskView>,
    pub ledger: Seq<RecordView>,
}

pub open spec fn is_confirmed(r: SubscriptionView) -> bool {
    r.status == SubscriptionStatus::Confirmed
}

/// The confirmed subscriptions, in table order.
pub open spec fn confirmed_subscriptions(subs: Seq<SubscriptionView>) -> Seq<SubscriptionView> {
    subs.filter(|r: SubscriptionView| is_confirmed(r))
}

/// The addresses of the confirmed subscriptions, in table order.
pub open spec fn confirmed_emails(subs: Seq<SubscriptionView>) -> Seq<Seq<char>> {
    confirmed_subscriptions(subs).map_values(|r: SubscriptionView| r.email)
}

/// The tokens of subscriber `id`, in table order.
pub open spec fn tokens_owned_by(ts: Seq<TokenView>, id: u128) -> Seq<TokenView> {
    ts.filter(|t: TokenView| t.subscriber_id == id)
}

/// The tokens of every other subscriber, in table order.
pub open spec fn tokens_not_owned_by(ts: Seq<TokenView>, id: u128) -> Seq<TokenView> {
    ts.filter(|t: TokenView| t.subscriber_id != id)
}

/// One task of `issue_id` for each address, none in flight.
pub open spec fn tasks_for(issue_id: u128, emails: Seq<Seq<char>>) -> Seq<TaskView> {
    emails.map_values(|e: Seq<char>| TaskView { issue_id, subscriber_email: e, in_flight: false })
}

/// The first task of the queue that no worker holds.
pub open spec fn first_free(q: Seq<TaskView>) -> Option<int> {
    if exists|i: int|
        0 <= i < q.len() && !q[i].in_flight && forall|j: int| 0 <= j < i ==> q[j].in_flight {
        Some(
            choose|i: int|
                0 <= i < q.len() && !q[i].in_flight && forall|j: int| 0 <= j < i ==> q[j].in_flight,
        )
    } else {
        None
    }
}

/// Whether some subscription has id `id`.
pub open spec fn subscriber_stored(subs: Seq<SubscriptionView>, id: u128) -> bool {
    exists|i: int| 0 <= i < subs.len() && subs[i].id == id
}

/// Whether some issue has id `id`.
pub open spec fn issue_stored(issues: Seq<IssueView>, id: u128) -> bool {
    exists|i: int| 0 <= i < issues.len() && issues[i].id == id
}

pub open spec fn subscriptions_wf(subs: Seq<SubscriptionView>) -> bool {
    &&& forall|i: int, j: int|
        0 <= i < subs.len() && 0 <= j < subs.len() && i != j ==> #[trigger] subs[i].id
            != #[trigger] subs[j].id
    &&& forall|i: int, j: int|
        0 <= i < subs.len() && 0 <= j < subs.len() && i != j ==> #[trigger] subs[i].email
            != #[trigger] subs[j].email
}

pub open spec fn tokens_wf(tokens: Seq<TokenView>, subs: Seq<SubscriptionView>) -> bool {
    &&& forall|i: int, j: int|
        0 <= i < tokens.len() && 0 <= j < tokens.len() && i != j ==> #[trigger] tokens[i].token
            != #[trigger] tokens[j].token
    &&& forall|i: int|
        0 <= i < tokens.len() ==> is_token(#[trigger] tokens[i].token) && subscriber_stored(
            subs,
            tokens[i].subscriber_id,
        )
}

pub open spec fn issues_wf(issues: Seq<IssueView>) -> bool {
    forall|i: int, j: int|
        0 <= i < issues.len() && 0 <= j < issues.len() && i != j ==> #[trigger] issues[i].id
            != #[trigger] issues[j].id
}

pub open spec fn queue_wf(q: Seq<TaskView>, issues: Seq<IssueView>) -> bool {
    &&& forall|i: int, j: int|
        0 <= i < q.len() && 0 <= j < q.len() && i != j ==> !(#[trigger] q[i].issue_id
            == #[trigger] q[j].issue_id && q[i].subscriber_email == q[j].subscriber_email)
    &&& forall|i: int| 0 <= i < q.len() ==> issue_stored(issues, #[trigger] q[i].issue_id)
}

pub open spec fn ledger_wf(ledger: Seq<RecordView>) -> bool {
    forall|i: int, j: int|
        0 <= i < ledger.len() && 0 <= j < ledger.len() && i != j ==> !(
        #[trigger] ledger[i].user_id == #[trigger] ledger[j].user_id && ledger[i].key
            == ledger[j].key)
}

impl StoreView {
    /// Keys are unique: subscription ids and emails, token values, issue
    /// ids, delivery task (issue, address) pairs and ledger (user, key)
    /// pairs. Every stored token has the shape of a token and belongs to a
    /// stored subscriber; every queued task belongs to a stored issue.
    pub open spec fn wf(self) -> bool {
        &&& subscriptions_wf(self.subscriptions)
        &&& tokens_wf(self.tokens, self.subscriptions)
        &&& issues_wf(self.issues)
        &&& queue_wf(self.queue, self.issues)
        &&& ledger_wf(self.ledger)
    }

    pub open spec fn email_index(self, email: Seq<char>) -> Option<int> {
        if exists|i: int| 0 <= i < self.subscriptions.len() && self.subscriptions[i].email == email {
            Some(
                choose|i: int|
                    0 <= i < self.subscriptions.len() && self.subscriptions[i].email == email,
            )
        } else {
            None
        }
    }

    pub open spec fn id_index(self, id: u128) -> Option<int> {
        if subscriber_stored(self.subscriptions, id) {
            Some(choose|i: int| 0 <= i < self.subscriptions.len() && self.subscriptions[i].id == id)
        } else {
            None
        }
    }

    pub open spec fn token_index(self, token: Seq<char>) -> Option<int> {
        if exists|i: int| 0 <= i < self.tokens.len() && self.tokens[i].token == token {
            Some(choose|i: int| 0 <= i < self.tokens.len() && self.tokens[i].token == token)
        } else {
            None
        }
    }

    /// The subscriber a token belongs to, if the token is stored.
    pub open spec fn token_owner(self, token: Seq<char>) -> Option<u128> {
        match self.token_index(token) {
            Some(i) => Some(self.tokens[i].subscriber_id),
            None => None,
        }
    }

    /// The tokens outstanding for a subscriber.
    pub open spec fn tokens_of(self, id: u128) -> Seq<TokenView> {
        tokens_owned_by(self.tokens, id)
    }

    pub open spec fn issue_index(self, id: u128) -> Option<int> {
        if issue_stored(self.issues, id) {
            Some(choose|i: int| 0 <= i < self.issues.len() && self.issues[i].id == id)
        } else {
            None
        }
    }

    pub open spec fn record_index(self, user_id: u128, key: Seq<char>) -> Option<int> {
        if exists|i: int|
            0 <= i < self.ledger.len() && self.ledger[i].user_id == user_id && self.ledger[i].key
                == key {
            Some(
                choose|i: int|
                    0 <= i < self.ledger.len() && self.ledger[i].user_id == user_id
                        && self.ledger[i].key == key,
            )
        } else {
            None
        }
    }

    pub open spec fn with_subscription(self, r: SubscriptionView) -> StoreView {
        StoreView { subscriptions: self.subscriptions.push(r), ..self }
    }

    pub open spec fn with_token(self, t: TokenView) -> StoreView {
        StoreView { tokens: self.tokens.push(t), ..self }
    }

    /// The subscription with id `id`, if any, marked confirmed.
    pub open spec fn with_confirmed(self, id: u128) -> StoreView {
        match self.id_index(id) {
            Some(i) => StoreView {
                subscriptions: self.subscriptions.update(
                    i,
                    SubscriptionView {
                        status: SubscriptionStatus::Confirmed,
                        ..self.subscriptions[i]
                    },
                ),
                ..self
            },
            None => self,
        }
    }

    /// Every token of subscriber `id` deleted.
    pub open spec fn without_tokens_of(self, id: u128) -> StoreView {
        StoreView { tokens: tokens_not_owned_by(self.tokens, id), ..self }
    }

    pub open spec fn with_issue(self, issue: IssueView) -> StoreView {
        StoreView { issues: self.issues.push(issue), ..self }
    }

    /// A task of `issue_id` queued for every confirmed subscriber.
    pub open spec fn with_tasks_for(self, issue_id: u128) -> StoreView {
        StoreView {
            queue: self.queue + tasks_for(issue_id, confirmed_emails(self.subscriptions)),
            ..self
        }
    }

    pub open spec fn with_task(self, t: TaskView) -> StoreView {
        StoreView { queue: self.queue.push(t), ..self }
    }

    pub open spec fn task_index(self, issue_id: u128, email: Seq<char>) -> Option<int> {
        if exists|i: int|
            0 <= i < self.queue.len() && self.queue[i].issue_id == issue_id
                && self.queue[i].subscriber_email == email {
            Some(
                choose|i: int|
                    0 <= i < self.queue.len() && self.queue[i].issue_id == issue_id
                        && self.queue[i].subscriber_email == email,
            )
        } else {
            None
        }
    }

    /// The task at position `i` marked in flight.
    pub open spec fn with_taken(self, i: int) -> StoreView {
        StoreView { queue: self.queue.update(i, TaskView { in_flight: true, ..self.queue[i] }), ..self }
    }

    /// The task with this key, if any, no longer in flight.
    pub open spec fn with_released(self, issue_id: u128, email: Seq<char>) -> StoreView {
        match self.task_index(issue_id, email) {
            Some(i) => StoreView {
                queue: self.queue.update(i, TaskView { in_flight: false, ..self.queue[i] }),
                ..self
            },
            None => self,
        }
    }

    /// The task with this key, if any, deleted.
    pub open spec fn without_task(self, issue_id: u128, email: Seq<char>) -> StoreView {
        match self.task_index(issue_id, email) {
            Some(i) => StoreView { queue: self.queue.remove(i), ..self },
            None => self,
        }
    }

    pub open spec fn with_record(self, r: RecordView) -> StoreView {
        StoreView { ledger: self.ledger.push(r), ..self }
    }

    /// The ledger record of (user, key), if any, completed with `resp`.
    pub open spec fn with_response(self, user_id: u128, key: Seq<char>, resp: ResponseView) -> StoreView {
        match self.record_index(user_id, key) {
            Some(i) => StoreView {
                ledger: self.ledger.update(
                    i,
                    RecordView { response: Some(resp), ..self.ledger[i] },
                ),
                ..self
            },
            None => self,
        }
    }

    /// The ledger record of (user, key), if any, deleted.
    pub open spec fn without_record(self, user_id: u128, key: Seq<char>) -> StoreView {
        match self.record_index(user_id, key) {
            Some(i) => StoreView { ledger: self.ledger.remove(i), ..self },
            None => self,
        }
    }
}

/// Token values stay distinct when the tokens of one subscriber are deleted.
proof fn lemma_kept_tokens_distinct(s: Seq<TokenView>, id: u128)
    requires
        forall|i: int, j: int|
            0 <= i < s.len() && 0 <= j < s.len() && i != j ==> #[trigger] s[i].token
                != #[trigger] s[j].token,
    ensures
        forall|i: int, j: int|
            0 <= i < tokens_not_owned_by(s, id).len() && 0 <= j < tokens_not_owned_by(s, id).len()
                && i != j ==> #[trigger] tokens_not_owned_by(s, id)[i].token
                != #[trigger] tokens_not_owned_by(s, id)[j].token,
    decreases s.len(),
{
    reveal(Seq::filter);
    if s.len() > 0 {
        let d = s.drop_last();
        lemma_kept_tokens_distinct(d, id);
        let f = tokens_not_owned_by(d, id);
        if s.last().subscriber_id != id {
            assert(tokens_not_owned_by(s, id) == f.push(s.last()));
            assert forall|k: int| 0 <= k < f.len() implies #[trigger] f[k].token != s.last().token by {
                assert(f.contains(f[k]));
                d.lemma_filter_contains_rev(|t: TokenView| t.subscriber_id != id, f[k]);
                let j = choose|j: int| 0 <= j < d.len() && d[j] == f[k];
                assert(s[j] == d[j]);
            }
        } else {
            assert(tokens_not_owned_by(s, id) == f);
        }
    }
}

/// Addresses stay distinct among the confirmed subscriptions.
proof fn lemma_confirmed_emails_distinct(s: Seq<SubscriptionView>)
    requires
        forall|i: int, j: int|
            0 <= i < s.len() && 0 <= j < s.len() && i != j ==> #[trigger] s[i].email
                != #[trigger] s[j].email,
    ensures
        forall|i: int, j: int|
            0 <= i < confirmed_emails(s).len() && 0 <= j < confirmed_emails(s).len() && i != j
                ==> #[trigger] confirmed_emails(s)[i] != #[trigger] confirmed_emails(s)[j],
    decreases s.len(),
{
    reveal(Seq::filter);
    if s.len() > 0 {
        let d = s.drop_last();
        lemma_confirmed_emails_distinct(d);
        let f = confirmed_subscriptions(d);
        if is_confirmed(s.last()) {
            assert(confirmed_subscriptions(s) == f.push(s.last()));
            assert(confirmed_emails(s) =~= confirmed_emails(d).push(s.last().email));
            assert forall|k: int| 0 <= k < f.len() implies #[trigger] f[k].email != s.last().email by {
                assert(f.contains(f[k]));
                d.lemma_filter_contains_rev(|r: SubscriptionView| is_confirmed(r), f[k]);
                let j = choose|j: int| 0 <= j < d.len() && d[j] == f[k];
                assert(s[j] == d[j]);
            }
            assert forall|i: int, j: int|
                0 <= i < confirmed_emails(s).len() && 0 <= j < confirmed_emails(s).len() && i != j
                    implies #[trigger] confirmed_emails(s)[i] != #[trigger] confirmed_emails(s)[j] by {
                let c = confirmed_emails(s);
                let cd = confirmed_emails(d);
                if i < f.len() && j < f.len() {
                    assert(c[i] == cd[i] && c[j] == cd[j]);
                } else if i < f.len() {
                    assert(c[i] == f[i].email);
                } else {
                    assert(c[j] == f[j].email);
                }
            }
        } else {
            assert(confirmed_subscriptions(s) == f);
            assert(confirmed_emails(s) == confirmed_emails(d));
        }
    }
}

/// All tables, held in memory.
pub struct Store {
    subscriptions: Vec<Subscription>,
    tokens: Vec<TokenRecord>,
    issues: Vec<NewsletterIssue>,
    queue: Vec<DeliveryTask>,
    ledger: Vec<IdempotencyRecord>,
}

impl View for Store {
    type V = StoreView;

    closed spec fn view(&self) -> StoreView {
        StoreView {
            subscriptions: self.subscriptions@.map_values(|r: Subscription| r@),
            tokens: self.tokens@.map_values(|t: TokenRecord| t@),
            issues: self.issues@.map_values(|i: NewsletterIssue| i@),
            queue: self.queue@.map_values(|t: DeliveryTask| t@),
            ledger: self.ledger@.map_values(|r: IdempotencyRecord| r@),
        }
    }
}

impl Store {
    /// Empty tables.
    pub fn new() -> (r: Store)
        ensures
            r@.wf(),
            r@.subscriptions.len() == 0,
            r@.tokens.len() == 0,
            r@.issues.len() == 0,
            r@.queue.len() == 0,
            r@.ledger.len() == 0,
    {
        let r = Store {
            subscriptions: Vec::new(),
            tokens: Vec::new(),
            issues: Vec::new(),
            queue: Vec::new(),
            ledger: Vec::new(),
        };
        r
    }

    /// The position of the subscription with address `email`.
    pub fn find_subscription(&self, email: &str) -> (r: Option<usize>)
        requires
            self@.wf(),
        ensures
            match r {
                Some(i) => self@.email_index(email@) == Some(i as int),
                None => self@.email_index(email@) is None,
            },
    {
        let e = String::from_str(email);
        let mut i: usize = 0;
        while i < self.subscriptions.len()
            invariant
                self@.wf(),
                e@ == email@,
                i <= self.subscriptions@.len(),
                forall|j: int| 0 <= j < i ==> self@.subscriptions[j].email != email@,
            decreases self.subscriptions@.len() - i,
        {
            if self.subscriptions[i].email == e {
                proof {
                    let v = self@.subscriptions;
                    assert(v[i as int].email == email@);
                    let k = choose|k: int| 0 <= k < v.len() && v[k].email == email@;
                    assert(v[k].email == email@);
                }
                return Some(i);
            }
            i = i + 1;
        }
        None
    }

    /// The subscription at position `i`.
    pub fn subscription(&self, i: usize) -> (r: &Subscription)
        requires
            i < self@.subscriptions.len(),
        ensures
            r@ == self@.subscriptions[i as int],
    {
        &self.subscriptions[i]
    }

    /// Whether some subscription has id `id`.
    pub fn subscription_id_taken(&self, id: u128) -> (r: bool)
        ensures
            r == (self@.id_index(id) is Some),
    {
        let mut i: usize = 0;
        while i < self.subscriptions.len()
            invariant
                i <= self.subscriptions@.len(),
                forall|j: int| 0 <= j < i ==> self@.subscriptions[j].id != id,
            decreases self.subscriptions@.len() - i,
        {
            if self.subscriptions[i].id == id {
                assert(self@.subscriptions[i as int].id == id);
                return true;
            }
            i = i + 1;
        }
        false
    }

    /// Adds a subscription whose id and address are new.
    pub fn insert_subscription(&mut self, row: Subscription)
        requires
            old(self)@.wf(),
            old(self)@.id_index(row.id) is None,
            old(self)@.email_index(row.email@) is None,
        ensures
            final(self)@.wf(),
            final(self)@ == old(self)@.with_subscription(row@),
    {
        let ghost v = row@;
        self.subscriptions.push(row);
        assert(self@.subscriptions =~= old(self)@.subscriptions.push(v));
        assert(self@ =~= old(self)@.with_subscription(v));
        proof {
            let t = self@.tokens;
            let s0 = old(self)@.subscriptions;
            assert forall|k: int| 0 <= k < t.len() implies subscriber_stored(
                self@.subscriptions,
                #[trigger] t[k].subscriber_id,
            ) by {
                assert(t[k] == old(self)@.tokens[k]);
                assert(is_token(old(self)@.tokens[k].token));
                assert(subscriber_stored(s0, t[k].subscriber_id));
                let j = choose|j: int| 0 <= j < s0.len() && s0[j].id == t[k].subscriber_id;
                assert(self@.subscriptions[j] == s0[j]);
            }
        }
    }

    /// Marks the subscription with id `id` confirmed; nothing changes when
    /// there is none.
    pub fn confirm_subscription(&mut self, id: u128)
        requires
            old(self)@.wf(),
        ensures
            final(self)@.wf(),
            final(self)@ == old(self)@.with_confirmed(id),
    {
        let mut i: usize = 0;
        while i < self.subscriptions.len()
            invariant
                self@ == old(self)@,
                self@.wf(),
                i <= self.subscriptions@.len(),
                forall|j: int| 0 <= j < i ==> self@.subscriptions[j].id != id,
            decreases self.subscriptions@.len() - i,
        {
            if self.subscriptions[i].id == id {
                let ghost before = self@;
                assert(before.subscriptions[i as int].id == id);
                assert(before.id_index(id) == Some(i as int));
                self.subscriptions[i].status = SubscriptionStatus::Confirmed;
                assert(self@.subscriptions =~= before.subscriptions.update(
                    i as int,
                    SubscriptionView {
                        status: SubscriptionStatus::Confirmed,
                        ..before.subscriptions[i as int]
                    },
                ));
                assert(self@ =~= before.with_confirmed(id));
                proof {
                    let t = self@.tokens;
                    let s0 = before.subscriptions;
                    assert forall|k: int| 0 <= k < t.len() implies subscriber_stored(
                        self@.subscriptions,
                        #[trigger] t[k].subscriber_id,
                    ) by {
                        assert(t[k] == before.tokens[k]);
                        assert(is_token(before.tokens[k].token));
                        assert(subscriber_stored(s0, t[k].subscriber_id));
                        let j = choose|j: int| 0 <= j < s0.len() && s0[j].id == t[k].subscriber_id;
                        assert(self@.subscriptions[j].id == s0[j].id);
                    }
                }
                return;
            }
            i = i + 1;
        }
    }

    /// Whether a stored token has value `token`.
    pub fn token_taken(&self, token: &str) -> (r: bool)
        requires
            self@.wf(),
        ensures
            r == (self@.token_index(token@) is Some),
    {
        match self.token_owner(token) {
            Some(_) => true,
            None => false,
        }
    }

    /// The subscriber the stored token `token` belongs to.
    pub fn token_owner(&self, token: &str) -> (r: Option<u128>)
        requires
            self@.wf(),
        ensures
            r == self@.token_owner(token@),
            r is Some <==> self@.token_index(token@) is Some,
    {
        let t = String::from_str(token);
        let mut i: usize = 0;
        while i < self.tokens.len()
            invariant
                self@.wf(),
                t@ == token@,
                i <= self.tokens@.len(),
                forall|j: int| 0 <= j < i ==> self@.tokens[j].token != token@,
            decreases self.tokens@.len() - i,
        {
            if self.tokens[i].token == t {
                proof {
                    let v = self@.tokens;
                    assert(v[i as int].token == token@);
                    let k = choose|k: int| 0 <= k < v.len() && v[k].token == token@;
                    assert(v[k].token == token@);
                }
                return Some(self.tokens[i].subscriber_id);
            }
            i = i + 1;
        }
        None
    }
    /// Stores a token whose value is new.
    pub fn insert_token(&mut self, token: String, subscriber_id: u128)
        requires
            old(self)@.wf(),
            old(self)@.token_index(token@) is None,
            is_token(token@),
            subscriber_stored(old(self)@.subscriptions, subscriber_id),
        ensures
            final(self)@.wf(),
            final(self)@ == old(self)@.with_token(TokenView { token: token@, subscriber_id }),
    {
        let t = TokenRecord { token, subscriber_id };
        let ghost v = t@;
        self.tokens.push(t);
        assert(self@.tokens =~= old(self)@.tokens.push(v));
        assert(self@ =~= old(self)@.with_token(v));
    }

    /// Deletes every token of subscriber `id`.
    pub fn delete_tokens_of(&mut self, id: u128)
        requires
            old(self)@.wf(),
        ensures
            final(self)@.wf(),
            final(self)@ == old(self)@.without_tokens_of(id),
    {
        let ghost v = self@.tokens;
        let mut kept: Vec<TokenRecord> = Vec::new();
        let mut i: usize = 0;
        while i < self.tokens.len()
            invariant
                self@ == old(self)@,
                v == self@.tokens,
                i <= self.tokens@.len(),
                kept@.map_values(|t: TokenRecord| t@) == tokens_not_owned_by(
                    v.subrange(0, i as int),
                    id,
                ),
            decreases self.tokens@.len() - i,
        {
            let ghost before = kept@.map_values(|t: TokenRecord| t@);
            proof {
                reveal(Seq::filter);
                assert(v.subrange(0, i + 1).drop_last() =~= v.subrange(0, i as int));
            }
            if self.tokens[i].subscriber_id != id {
                let t = TokenRecord {
                    token: self.tokens[i].token.clone(),
                    subscriber_id: self.tokens[i].subscriber_id,
                };
                kept.push(t);
                assert(kept@.map_values(|t: TokenRecord| t@) =~= before.push(v[i as int]));
            }
            i = i + 1;
        }
        self.tokens = kept;
        proof {
            assert(v.subrange(0, v.len() as int) =~= v);
            lemma_kept_tokens_distinct(v, id);
            let kept_v = tokens_not_owned_by(v, id);
            let subs = old(self)@.subscriptions;
            assert forall|k: int| 0 <= k < kept_v.len() implies is_token(
                #[trigger] kept_v[k].token,
            ) && subscriber_stored(subs, kept_v[k].subscriber_id) by {
                assert(kept_v.contains(kept_v[k]));
                v.lemma_filter_contains_rev(|t: TokenView| t.subscriber_id != id, kept_v[k]);
                let j = choose|j: int| 0 <= j < v.len() && v[j] == kept_v[k];
                assert(is_token(v[j].token));
            }
        }
        assert(self@ =~= old(self)@.without_tokens_of(id));
    }

    /// Whether some issue has id `id`.
    pub fn issue_id_taken(&self, id: u128) -> (r: bool)
        requires
            self@.wf(),
        ensures
            r == (self@.issue_index(id) is Some),
    {
        match self.find_issue(id) {
            Some(_) => true,
            None => false,
        }
    }

    /// The position of the issue with id `id`.
    pub fn find_issue(&self, id: u128) -> (r: Option<usize>)
        requires
            self@.wf(),
        ensures
            match r {
                Some(i) => self@.issue_index(id) == Some(i as int),
                None => self@.issue_index(id) is None,
            },
    {
        let mut i: usize = 0;
        while i < self.issues.len()
            invariant
                self@.wf(),
                i <= self.issues@.len(),
                forall|j: int| 0 <= j < i ==> self@.issues[j].id != id,
            decreases self.issues@.len() - i,
        {
            if self.issues[i].id == id {
                proof {
                    let v = self@.issues;
                    assert(v[i as int].id == id);
                    let k = choose|k: int| 0 <= k < v.len() && v[k].id == id;
                    assert(v[k].id == id);
                }
                return Some(i);
            }
            i = i + 1;
        }
        None
    }

    /// The issue at position `i`.
    pub fn issue(&self, i: usize) -> (r: &NewsletterIssue)
        requires
            i < self@.issues.len(),
        ensures
            r@ == self@.issues[i as int],
    {
        &self.issues[i]
    }

    /// Adds an issue whose id is new.
    pub fn insert_issue(&mut self, issue: NewsletterIssue)
        requires
            old(self)@.wf(),
            old(self)@.issue_index(issue.id) is None,
        ensures
            final(self)@.wf(),
            final(self)@ == old(self)@.with_issue(issue@),
    {
        let ghost v = issue@;
        self.issues.push(issue);
        assert(self@.issues =~= old(self)@.issues.push(v));
        assert(self@ =~= old(self)@.with_issue(v));
        proof {
            let q = self@.queue;
            let i0 = old(self)@.issues;
            assert forall|k: int| 0 <= k < q.len() implies issue_stored(
                self@.issues,
                #[trigger] q[k].issue_id,
            ) by {
                assert(issue_stored(i0, q[k].issue_id));
                let j = choose|j: int| 0 <= j < i0.len() && i0[j].id == q[k].issue_id;
                assert(self@.issues[j] == i0[j]);
            }
        }
    }

    /// Queues one task of `issue_id` for every confirmed subscriber, in
    /// table order: a single step, so no subscription can change between
    /// listing the subscribers and creating the tasks.
    pub fn enqueue_for_confirmed(&mut self, issue_id: u128)
        requires
            old(self)@.wf(),
            old(self)@.issue_index(issue_id) is Some,
            forall|k: int| 0 <= k < old(self)@.queue.len() ==> #[trigger] old(self)@.queue[k].issue_id != issue_id,
        ensures
            final(self)@.wf(),
            final(self)@ == old(self)@.with_tasks_for(issue_id),
    {
        let ghost subs = self@.subscriptions;
        let ghost q0 = self@.queue;
        let mut i: usize = 0;
        while i < self.subscriptions.len()
            invariant
                subs == self@.subscriptions,
                i <= self.subscriptions@.len(),
                self@ == (StoreView {
                    queue: q0 + tasks_for(
                        issue_id,
                        confirmed_emails(subs.subrange(0, i as int)),
                    ),
                    ..old(self)@
                }),
            decreases self.subscriptions@.len() - i,
        {
            let ghost before = self@;
            proof {
                reveal(Seq::filter);
                assert(subs.subrange(0, i + 1).drop_last() =~= subs.subrange(0, i as int));
            }
            if self.subscriptions[i].status == SubscriptionStatus::Confirmed {
                let task = DeliveryTask {
                    issue_id,
                    subscriber_email: self.subscriptions[i].email.clone(),
                    in_flight: false,
                };
                let ghost tv = task@;
                self.queue.push(task);
                proof {
                    let c0 = confirmed_subscriptions(subs.subrange(0, i as int));
                    let c1 = confirmed_subscriptions(subs.subrange(0, i + 1));
                    assert(c1 == c0.push(subs[i as int]));
                    assert(confirmed_emails(subs.subrange(0, i + 1)) =~= confirmed_emails(
                        subs.subrange(0, i as int),
                    ).push(subs[i as int].email));
                    assert(self@.queue =~= before.queue.push(tv));
                    assert(self@.queue =~= q0 + tasks_for(
                        issue_id,
                        confirmed_emails(subs.subrange(0, i + 1)),
                    ));
                }
            } else {
                proof {
                    assert(confirmed_subscriptions(subs.subrange(0, i + 1))
                        == confirmed_subscriptions(subs.subrange(0, i as int)));
                }
            }
            i = i + 1;
        }
        assert(subs.subrange(0, subs.len() as int) =~= subs);
        assert(self@ =~= old(self)@.with_tasks_for(issue_id));
        proof {
            let n0 = q0.len() as int;
            let e = confirmed_emails(subs);
            lemma_confirmed_emails_distinct(subs);
            let nq = self@.queue;
            assert(self@.issues == old(self)@.issues);
            assert forall|i: int, j: int|
                0 <= i < nq.len() && 0 <= j < nq.len() && i != j implies !(
                #[trigger] nq[i].issue_id == #[trigger] nq[j].issue_id
                    && nq[i].subscriber_email == nq[j].subscriber_email) by {
                if i < n0 && j < n0 {
                    assert(nq[i] == q0[i] && nq[j] == q0[j]);
                } else if i < n0 {
                    assert(nq[i] == q0[i]);
                    assert(nq[j].issue_id == issue_id);
                } else if j < n0 {
                    assert(nq[j] == q0[j]);
                    assert(nq[i].issue_id == issue_id);
                } else {
                    assert(nq[i].subscriber_email == e[i - n0]);
                    assert(nq[j].subscriber_email == e[j - n0]);
                }
            }
            assert forall|i: int| 0 <= i < nq.len() implies issue_stored(self@.issues, #[trigger] nq[i].issue_id) by {
                if i < n0 {
                    assert(nq[i] == q0[i]);
                    assert(issue_stored(old(self)@.issues, q0[i].issue_id));
                } else {
                    assert(nq[i].issue_id == issue_id);
                }
            }
        }
    }

    /// The position of the task with key (`issue_id`, `email`).
    pub fn find_task(&self, issue_id: u128, email: &str) -> (r: Option<usize>)
        requires
            self@.wf(),
        ensures
            match r {
                Some(i) => self@.task_index(issue_id, email@) == Some(i as int),
                None => self@.task_index(issue_id, email@) is None,
            },
    {
        let e = String::from_str(email);
        let mut i: usize = 0;
        while i < self.queue.len()
            invariant
                self@.wf(),
                e@ == email@,
                i <= self.queue@.len(),
                forall|j: int|
                    0 <= j < i ==> !(self@.queue[j].issue_id == issue_id
                        && self@.queue[j].subscriber_email == email@),
            decreases self.queue@.len() - i,
        {
            if self.queue[i].issue_id == issue_id && self.queue[i].subscriber_email == e {
                proof {
                    let v = self@.queue;
                    assert(v[i as int].issue_id == issue_id && v[i as int].subscriber_email == email@);
                    let c = choose|c: int|
                        0 <= c < v.len() && v[c].issue_id == issue_id && v[c].subscriber_email == email@;
                    assert(v[c].issue_id == issue_id && v[c].subscriber_email == email@);
                }
                return Some(i);
            }
            i = i + 1;
        }
        None
    }

    /// Queues a task of a stored issue for `email`, unless a task with that
    /// key is queued already; the address is kept as it is, whatever it
    /// holds. Says whether the task was queued.
    pub fn enqueue_task(&mut self, issue_id: u128, email: String) -> (r: bool)
        requires
            old(self)@.wf(),
        ensures
            final(self)@.wf(),
            r == (old(self)@.issue_index(issue_id) is Some && old(self)@.task_index(
                issue_id,
                email@,
            ) is None),
            final(self)@ == if r {
                old(self)@.with_task(TaskView { issue_id, subscriber_email: email@, in_flight: false })
            } else {
                old(self)@
            },
    {
        if !self.issue_id_taken(issue_id) {
            return false;
        }
        if self.find_task(issue_id, email.as_str()).is_some() {
            return false;
        }
        let task = DeliveryTask { issue_id, subscriber_email: email, in_flight: false };
        let ghost v = task@;
        self.queue.push(task);
        assert(self@.queue =~= old(self)@.queue.push(v));
        assert(self@ =~= old(self)@.with_task(v));
        proof {
            let q = self@.queue;
            assert(self@.issues == old(self)@.issues);
            assert forall|i: int| 0 <= i < q.len() implies issue_stored(self@.issues, #[trigger] q[i].issue_id) by {
                if i < q.len() - 1 {
                    assert(issue_stored(old(self)@.issues, old(self)@.queue[i].issue_id));
                }
            }
            assert forall|i: int, j: int|
                0 <= i < q.len() && 0 <= j < q.len() && i != j implies !(
                #[trigger] q[i].issue_id == #[trigger] q[j].issue_id
                    && q[i].subscriber_email == q[j].subscriber_email) by {
                if i < q.len() - 1 && j < q.len() - 1 {
                    assert(q[i] == old(self)@.queue[i] && q[j] == old(self)@.queue[j]);
                } else if i < q.len() - 1 {
                    assert(q[i] == old(self)@.queue[i]);
                } else {
                    assert(q[j] == old(self)@.queue[j]);
                }
            }
        }
        true
    }

    /// The position of the first task that no worker holds.
    pub fn first_free_task(&self) -> (r: Option<usize>)
        ensures
            match r {
                Some(i) => first_free(self@.queue) == Some(i as int),
                None => first_free(self@.queue) is None,
            },
            r matches Some(i) ==> i < self@.queue.len(),
            r is None ==> forall|j: int| 0 <= j < self@.queue.len() ==> #[trigger] self@.queue[j].in_flight,
    {
        let mut i: usize = 0;
        while i < self.queue.len()
            invariant
                i <= self.queue@.len(),
                forall|j: int| 0 <= j < i ==> self@.queue[j].in_flight,
            decreases self.queue@.len() - i,
        {
            if !self.queue[i].in_flight {
                proof {
                    let q = self@.queue;
                    assert(!q[i as int].in_flight);
                    let k = choose|k: int|
                        0 <= k < q.len() && !q[k].in_flight && forall|j: int|
                            0 <= j < k ==> q[j].in_flight;
                    if k > i {
                        assert(q[i as int].in_flight);
                    }
                    assert(k == i);
                }
                return Some(i);
            }
            i = i + 1;
        }
        None
    }

    /// The task at position `i`.
    pub fn task(&self, i: usize) -> (r: &DeliveryTask)
        requires
            i < self@.queue.len(),
        ensures
            r@ == self@.queue[i as int],
    {
        &self.queue[i]
    }

    /// Marks the task at position `i` in flight.
    pub fn mark_task(&mut self, i: usize)
        requires
            old(self)@.wf(),
            i < old(self)@.queue.len(),
        ensures
            final(self)@.wf(),
            final(self)@ == old(self)@.with_taken(i as int),
    {
        self.queue[i].in_flight = true;
        assert(self@.queue =~= old(self)@.with_taken(i as int).queue);
        assert(self@ =~= old(self)@.with_taken(i as int));
        proof {
            let q = self@.queue;
            let q0 = old(self)@.queue;
            assert(self@.issues == old(self)@.issues);
            assert forall|k: int| 0 <= k < q.len() implies issue_stored(self@.issues, #[trigger] q[k].issue_id) by {
                assert(q[k].issue_id == q0[k].issue_id);
                assert(issue_stored(old(self)@.issues, q0[k].issue_id));
            }
            assert forall|a: int, b: int|
                0 <= a < q.len() && 0 <= b < q.len() && a != b implies !(
                #[trigger] q[a].issue_id == #[trigger] q[b].issue_id
                    && q[a].subscriber_email == q[b].subscriber_email) by {
                assert(q[a].issue_id == q0[a].issue_id && q[a].subscriber_email == q0[a].subscriber_email);
                assert(q[b].issue_id == q0[b].issue_id && q[b].subscriber_email == q0[b].subscriber_email);
            }
        }
    }

    /// Hands the task with key (`issue_id`, `email`) back to the queue: it
    /// is no longer in flight and the next worker may take it.
    pub fn release_task(&mut self, issue_id: u128, email: &str)
        requires
            old(self)@.wf(),
        ensures
            final(self)@.wf(),
            final(self)@ == old(self)@.with_released(issue_id, email@),
    {
        match self.find_task(issue_id, email) {
            Some(i) => {
                self.queue[i].in_flight = false;
                assert(self@.queue =~= old(self)@.with_released(issue_id, email@).queue);
                assert(self@ =~= old(self)@.with_released(issue_id, email@));
                proof {
                    let q = self@.queue;
                    let q0 = old(self)@.queue;
                    assert(self@.issues == old(self)@.issues);
                    assert forall|k: int| 0 <= k < q.len() implies issue_stored(self@.issues, #[trigger] q[k].issue_id) by {
                        assert(q[k].issue_id == q0[k].issue_id);
                        assert(issue_stored(old(self)@.issues, q0[k].issue_id));
                    }
                    assert forall|a: int, b: int|
                        0 <= a < q.len() && 0 <= b < q.len() && a != b implies !(
                        #[trigger] q[a].issue_id == #[trigger] q[b].issue_id
                            && q[a].subscriber_email == q[b].subscriber_email) by {
                        assert(q[a].issue_id == q0[a].issue_id && q[a].subscriber_email == q0[a].subscriber_email);
                        assert(q[b].issue_id == q0[b].issue_id && q[b].subscriber_email == q0[b].subscriber_email);
                    }
                }
            },
            None => {},
        }
    }

    /// Deletes the task with key (`issue_id`, `email`).
    pub fn delete_task(&mut self, issue_id: u128, email: &str)
        requires
            old(self)@.wf(),
        ensures
            final(self)@.wf(),
            final(self)@ == old(self)@.without_task(issue_id, email@),
    {
        match self.find_task(issue_id, email) {
            Some(i) => {
                self.queue.remove(i);
                assert(self@.queue =~= old(self)@.queue.remove(i as int));
                assert(self@ =~= old(self)@.without_task(issue_id, email@));
                proof {
                    let q = self@.queue;
                    let q0 = old(self)@.queue;
                    assert(self@.issues == old(self)@.issues);
                    assert forall|k: int| 0 <= k < q.len() implies issue_stored(self@.issues, #[trigger] q[k].issue_id) by {
                        if k < i {
                            assert(q[k] == q0[k]);
                            assert(issue_stored(old(self)@.issues, q0[k].issue_id));
                        } else {
                            assert(q[k] == q0[k + 1]);
                            assert(issue_stored(old(self)@.issues, q0[k + 1].issue_id));
                        }
                    }
                    assert forall|a: int, b: int|
                        0 <= a < q.len() && 0 <= b < q.len() && a != b implies !(
                        #[trigger] q[a].issue_id == #[trigger] q[b].issue_id
                            && q[a].subscriber_email == q[b].subscriber_email) by {
                        let a0 = if a < i { a } else { a + 1 };
                        let b0 = if b < i { b } else { b + 1 };
                        assert(q[a] == q0[a0] && q[b] == q0[b0]);
                    }
                }
            },
            None => {},
        }
    }

    /// The position of the ledger record of (`user_id`, `key`).
    pub fn find_record(&self, user_id: u128, key: &str) -> (r: Option<usize>)
        requires
            self@.wf(),
        ensures
            match r {
                Some(i) => self@.record_index(user_id, key@) == Some(i as int),
                None => self@.record_index(user_id, key@) is None,
            },
    {
        let k = String::from_str(key);
        let mut i: usize = 0;
        while i < self.ledger.len()
            invariant
                self@.wf(),
                k@ == key@,
                i <= self.ledger@.len(),
                forall|j: int|
                    0 <= j < i ==> !(self@.ledger[j].user_id == user_id && self@.ledger[j].key
                        == key@),
            decreases self.ledger@.len() - i,
        {
            if self.ledger[i].user_id == user_id && self.ledger[i].key == k {
                proof {
                    let v = self@.ledger;
                    assert(v[i as int].user_id == user_id && v[i as int].key == key@);
                    let c = choose|c: int|
                        0 <= c < v.len() && v[c].user_id == user_id && v[c].key == key@;
                    assert(v[c].user_id == user_id && v[c].key == key@);
                }
                return Some(i);
            }
            i = i + 1;
        }
        None
    }

    /// The ledger record at position `i`.
    pub fn record(&self, i: usize) -> (r: &IdempotencyRecord)
        requires
            i < self@.ledger.len(),
        ensures
            r@ == self@.ledger[i as int],
    {
        &self.ledger[i]
    }

    /// Adds a ledger record whose (user, key) is new.
    pub fn insert_record(&mut self, rec: IdempotencyRecord)
        requires
            old(self)@.wf(),
            old(self)@.record_index(rec.user_id, rec.key@) is None,
        ensures
            final(self)@.wf(),
            final(self)@ == old(self)@.with_record(rec@),
    {
        let ghost v = rec@;
        self.ledger.push(rec);
        assert(self@.ledger =~= old(self)@.ledger.push(v));
        assert(self@ =~= old(self)@.with_record(v));
    }

    /// Completes the ledger record of (`user_id`, `key`) with `resp`.
    pub fn complete_record(&mut self, user_id: u128, key: &str, resp: SavedResponse)
        requires
            old(self)@.wf(),
        ensures
            final(self)@.wf(),
            final(self)@ == old(self)@.with_response(user_id, key@, resp@),
    {
        match self.find_record(user_id, key) {
            Some(i) => {
                let ghost before = self@;
                let ghost rv = resp@;
                self.ledger[i].response = Some(resp);
                assert(self@.ledger =~= before.ledger.update(
                    i as int,
                    RecordView { response: Some(rv), ..before.ledger[i as int] },
                ));
                assert(self@ =~= before.with_response(user_id, key@, rv));
            },
            None => {},
        }
    }

    /// Deletes the ledger record of (`user_id`, `key`).
    pub fn remove_record(&mut self, user_id: u128, key: &str)
        requires
            old(self)@.wf(),
        ensures
            final(self)@.wf(),
            final(self)@ == old(self)@.without_record(user_id, key@),
    {
        match self.find_record(user_id, key) {
            Some(i) => {
                let ghost before = self@;
                self.ledger.remove(i);
                assert(self@.ledger =~= before.ledger.remove(i as int));
                assert(self@ =~= before.without_record(user_id, key@));
            },
            None => {},
        }
    }

    /// The rows of the subscriptions table.
    pub fn subscriptions(&self) -> (r: &Vec<Subscription>)
        ensures
            r@.map_values(|s: Subscription| s@) == self@.subscriptions,
    {
        &self.subscriptions
    }

    /// The rows of the confirmation tokens table.
    pub fn tokens(&self) -> (r: &Vec<TokenRecord>)
        ensures
            r@.map_values(|t: TokenRecord| t@) == self@.tokens,
    {
        &self.tokens
    }

    /// The published issues.
    pub fn issues(&self) -> (r: &Vec<NewsletterIssue>)
        ensures
            r@.map_values(|i: NewsletterIssue| i@) == self@.issues,
    {
        &self.issues
    }

    /// The delivery queue, head first.
    pub fn delivery_queue(&self) -> (r: &Vec<DeliveryTask>)
        ensures
            r@.map_values(|t: DeliveryTask| t@) == self@.queue,
    {
        &self.queue
    }

    /// The idempotency ledger.
    pub fn ledger(&self) -> (r: &Vec<IdempotencyRecord>)
        ensures
            r@.map_values(|r: IdempotencyRecord| r@) == self@.ledger,
    {
        &self.ledger
    }
}

} // verus!
