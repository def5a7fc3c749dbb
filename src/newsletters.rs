//! Publishing a newsletter issue: idempotent, and all-or-nothing.
use crate::fresh::{new_id, now_timestamp};
use crate::idempotency::{is_reserved, key_is_valid, try_outcome, IdempotencyKey, NextAction};
use crate::domain::subscriber_email::email_is_valid;
use crate::domain::{SubscriberEmail, SubscriptionStatus};
use crate::store::{
    confirmed_emails, confirmed_subscriptions, issue_stored, HeaderPair, IssueView, NewsletterIssue,
    ResponseView, SavedResponse, Store, StoreView,
};
use crate::utils::{e422, e500, HttpError};
use vstd::prelude::*;

verus! {

/// Where the publication form sends its author afterwards.
pub open spec fn newsletters_page() -> Seq<char> {
    "/admin/newsletters"@
}

/// The bytes of an ASCII text.
pub open spec fn ascii_bytes(s: Seq<char>) -> Seq<u8> {
    s.map_values(|c: char| c as u8)
}

/// The response to a publication: 303 See Other, back to the form.
pub open spec fn publish_response() -> ResponseView {
    ResponseView {
        status_code: 303,
        headers: seq![("location"@, ascii_bytes(newsletters_page()))],
        body: Seq::empty(),
    }
}

/// The bytes of `s`, one per character, for text that is ASCII.
pub fn ascii_bytes_of(s: &str) -> (r: Vec<u8>)
    ensures
        r@ == ascii_bytes(s@),
{
    let n = s.unicode_len();
    let mut r: Vec<u8> = Vec::new();
    let mut i: usize = 0;
    while i < n
        invariant
            n == s@.len(),
            i <= n,
            r@ == ascii_bytes(s@.subrange(0, i as int)),
        decreases n - i,
    {
        let c = s.get_char(i);
        r.push(c as u8);
        i = i + 1;
        assert(r@ =~= ascii_bytes(s@.subrange(0, i as int)));
    }
    assert(s@.subrange(0, n as int) =~= s@);
    r
}

/// The response that a publication saves and returns.
pub fn see_other_newsletters() -> (r: SavedResponse)
    ensures
        r@ == publish_response(),
{
    let location = HeaderPair {
        name: String::from_str("location"),
        value: ascii_bytes_of("/admin/newsletters"),
    };
    let mut headers: Vec<HeaderPair> = Vec::new();
    headers.push(location);
    let r = SavedResponse { status_code: 303, headers, body: Vec::new() };
    assert(r@.headers =~= publish_response().headers);
    assert(r@.body =~= publish_response().body);
    r
}

/// The fields of the publication form.
pub struct NewsletterForm {
    pub title: String,
    pub html_content: String,
    pub text_content: String,
    pub idempotency_key: String,
}

/// Why a publication changes nothing.
pub enum PublishRefusal {
    InvalidKey,
    SavedResponseMissing,
    IssueIdTaken,
}

/// What publishing does, given the new issue's id and the time now. A key
/// seen before returns its saved response and changes nothing. A new key
/// stores the issue, queues a task for every confirmed subscriber and saves
/// the response under the key, all in one step.
pub open spec fn publish_outcome(
    s: StoreView,
    user_id: u128,
    key: Seq<char>,
    title: Seq<char>,
    html: Seq<char>,
    text: Seq<char>,
    issue_id: u128,
    now: i64,
) -> Result<(StoreView, ResponseView), PublishRefusal> {
    if !key_is_valid(key) {
        Err(PublishRefusal::InvalidKey)
    } else {
        match try_outcome(s, user_id, key, now) {
            Err(_) => Err(PublishRefusal::SavedResponseMissing),
            Ok((_, Some(resp))) => Ok((s, resp)),
            Ok((s1, None)) => if s1.issue_index(issue_id) is Some {
                Err(PublishRefusal::IssueIdTaken)
            } else {
                let issue = IssueView {
                    id: issue_id,
                    title,
                    text_content: text,
                    html_content: html,
                    published_at: now,
                };
                let s2 = s1.with_issue(issue).with_tasks_for(issue_id);
                Ok((s2.with_response(user_id, key, publish_response()), publish_response()))
            },
        }
    }
}

/// Publishing the form took the tables from `before` to `after` and gave
/// `resp`, for some issue id and time.
pub open spec fn published(
    before: StoreView,
    user_id: u128,
    form: NewsletterFormView,
    after: StoreView,
    resp: ResponseView,
) -> bool {
    exists|issue_id: u128, now: i64|
        #[trigger] publish_outcome(
            before,
            user_id,
            form.idempotency_key,
            form.title,
            form.html_content,
            form.text_content,
            issue_id,
            now,
        ) == Ok::<(StoreView, ResponseView), PublishRefusal>((after, resp))
}

pub struct NewsletterFormView {
    pub title: Seq<char>,
    pub html_content: Seq<char>,
    pub text_content: Seq<char>,
    pub idempotency_key: Seq<char>,
}

impl View for NewsletterForm {
    type V = NewsletterFormView;

    open spec fn view(&self) -> NewsletterFormView {
        NewsletterFormView {
            title: self.title@,
            html_content: self.html_content@,
            text_content: self.text_content@,
            idempotency_key: self.idempotency_key@,
        }
    }
}

/// Entry `i` of a listing of confirmed addresses stands for address `e`:
/// the validated address, or an error when it fails validation.
pub open spec fn listed_email(r: Result<SubscriberEmail, String>, e: Seq<char>) -> bool {
    match r {
        Ok(v) => v@ == e,
        Err(_) => !email_is_valid(e),
    }
}

/// A key seen before decides the result on its own: a completed record
/// replays its response and changes nothing, a reserved one is a 500.
pub open spec fn replays_or_refuses(
    before: StoreView,
    user_id: u128,
    key: Seq<char>,
    after: StoreView,
    r: Result<SavedResponse, HttpError<String>>,
) -> bool {
    match before.record_index(user_id, key) {
        Some(i) => match before.ledger[i].response {
            Some(resp) => (r matches Ok(saved) && saved@ == resp) && after == before,
            None => r matches Err(HttpError::InternalServerError(_)),
        },
        None => true,
    }
}

impl Store {
    /// The addresses of the confirmed subscribers, in table order, each
    /// validated again as it is read: an address that fails validation is
    /// an error in its own entry and does not stop the listing.
    pub fn list_confirmed_emails(&self) -> (r: Vec<Result<SubscriberEmail, String>>)
        ensures
            r@.len() == confirmed_emails(self@.subscriptions).len(),
            forall|i: int|
                0 <= i < r@.len() ==> listed_email(
                    #[trigger] r@[i],
                    confirmed_emails(self@.subscriptions)[i],
                ),
    {
        let rows = self.subscriptions();
        let ghost subs = self@.subscriptions;
        assert(rows@.len() == subs.len());
        let mut r: Vec<Result<SubscriberEmail, String>> = Vec::new();
        let mut i: usize = 0;
        while i < rows.len()
            invariant
                subs == rows@.map_values(|s: crate::store::Subscription| s@),
                i <= rows@.len(),
                r@.len() == confirmed_emails(subs.subrange(0, i as int)).len(),
                forall|k: int|
                    0 <= k < r@.len() ==> listed_email(
                        #[trigger] r@[k],
                        confirmed_emails(subs.subrange(0, i as int))[k],
                    ),
            decreases rows@.len() - i,
        {
            proof {
                reveal(Seq::filter);
                assert(subs.subrange(0, i + 1).drop_last() =~= subs.subrange(0, i as int));
            }
            let ghost before = confirmed_emails(subs.subrange(0, i as int));
            if rows[i].status == SubscriptionStatus::Confirmed {
                assert(subs[i as int] == rows@[i as int]@);
                let parsed = SubscriberEmail::parse(rows[i].email.clone());
                r.push(parsed);
                proof {
                    let c0 = confirmed_subscriptions(subs.subrange(0, i as int));
                    assert(confirmed_subscriptions(subs.subrange(0, i + 1)) == c0.push(
                        subs[i as int],
                    ));
                    assert(confirmed_emails(subs.subrange(0, i + 1)) =~= before.push(
                        subs[i as int].email,
                    ));
                }
            } else {
                assert(subs[i as int] == rows@[i as int]@);
                assert(confirmed_subscriptions(subs.subrange(0, i + 1)) == confirmed_subscriptions(
                    subs.subrange(0, i as int),
                ));
            }
            i = i + 1;
        }
        assert(subs.subrange(0, rows@.len() as int) =~= subs);
        r
    }

    /// Publishes the form for `user_id`, with the new issue's id and the
    /// time now chosen by the caller. The tables change exactly as
    /// `publish_outcome` says, or not at all.
    pub fn publish_newsletter(
        &mut self,
        user_id: u128,
        form: &NewsletterForm,
        issue_id: u128,
        now: i64,
    ) -> (r: Result<SavedResponse, HttpError<String>>)
        requires
            old(self)@.wf(),
        ensures
            final(self)@.wf(),
            match publish_outcome(
                old(self)@,
                user_id,
                form.idempotency_key@,
                form.title@,
                form.html_content@,
                form.text_content@,
                issue_id,
                now,
            ) {
                Ok((s, resp)) => final(self)@ == s && (r matches Ok(saved) && saved@ == resp),
                Err(PublishRefusal::InvalidKey) => final(self)@ == old(self)@ && r matches Err(
                    HttpError::UnprocessableEntity(_),
                ),
                Err(_) => final(self)@ == old(self)@ && r matches Err(
                    HttpError::InternalServerError(_),
                ),
            },
    {
        let key = match IdempotencyKey::parse(form.idempotency_key.clone()) {
            Ok(k) => k,
            Err(m) => {
                return Err(e422(m));
            },
        };
        let ghost s0 = self@;
        let reservation = match self.try_processing(&key, user_id, now) {
            Err(e) => {
                return Err(e500(e.message()));
            },
            Ok(NextAction::ReturnSavedResponse(saved)) => {
                return Ok(saved);
            },
            Ok(NextAction::StartProcessing(t)) => t,
        };
        let ghost s1 = self@;
        proof {
            let n = s0.ledger.len() as int;
            assert(s1.ledger[n].user_id == user_id && s1.ledger[n].key == key@);
            assert(s1.record_index(user_id, key@) == Some(n)) by {
                let k = choose|k: int|
                    0 <= k < s1.ledger.len() && s1.ledger[k].user_id == user_id && s1.ledger[k].key
                        == key@;
                if k < n {
                    assert(s0.ledger[k].user_id == user_id && s0.ledger[k].key == key@);
                }
            }
        }
        if self.issue_id_taken(issue_id) {
            self.abort(reservation);
            proof {
                assert(self@.ledger =~= s0.ledger);
                assert(self@ =~= s0);
            }
            return Err(e500(String::from_str("Failed to store newsletter issue details")));
        }
        let issue = NewsletterIssue {
            id: issue_id,
            title: form.title.clone(),
            text_content: form.text_content.clone(),
            html_content: form.html_content.clone(),
            published_at: now,
        };
        let ghost sb = self@;
        self.insert_issue(issue);
        proof {
            let s1 = self@;
            assert(s1.issues[s1.issues.len() - 1].id == issue_id);
            assert forall|k: int| 0 <= k < s1.queue.len() implies #[trigger] s1.queue[k].issue_id
                != issue_id by {
                assert(s1.queue[k] == sb.queue[k]);
                assert(issue_stored(sb.issues, sb.queue[k].issue_id));
            }
        }
        self.enqueue_for_confirmed(issue_id);
        let response = see_other_newsletters();
        assert(self@.ledger == s1.ledger);
        assert(is_reserved(self@, user_id, key@));
        Ok(self.save_response(reservation, response))
    }

    /// Publishes the form for `user_id` under a fresh issue id. A malformed
    /// key gives 422 and nothing else happens.
    pub fn publish(&mut self, user_id: u128, form: &NewsletterForm) -> (r: Result<
        SavedResponse,
        HttpError<String>,
    >)
        requires
            old(self)@.wf(),
        ensures
            final(self)@.wf(),
            r matches Err(HttpError::UnprocessableEntity(_)) <==> !key_is_valid(
                form.idempotency_key@,
            ),
            r is Err ==> final(self)@ == old(self)@,
            r matches Ok(saved) ==> published(old(self)@, user_id, form@, final(self)@, saved@),
            key_is_valid(form.idempotency_key@) ==> replays_or_refuses(
                old(self)@,
                user_id,
                form.idempotency_key@,
                final(self)@,
                r,
            ),
            r matches Err(HttpError::InternalServerError(_)) ==> (old(self)@.record_index(
                user_id,
                form.idempotency_key@,
            ) is Some || old(self)@.issues.len() > 0),
    {
        let issue_id = new_id();
        let now = now_timestamp();
        let r = self.publish_newsletter(user_id, form, issue_id, now);
        proof {
            if r is Ok {
                let o = publish_outcome(
                    old(self)@,
                    user_id,
                    form.idempotency_key@,
                    form.title@,
                    form.html_content@,
                    form.text_content@,
                    issue_id,
                    now,
                );
                assert(o == Ok::<(StoreView, ResponseView), PublishRefusal>((self@, r->Ok_0@)));
            }
        }
        r
    }
}

} // verus!
