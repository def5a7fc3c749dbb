//! The idempotency ledger: the first submission of a (user, key) pair does
//! the work, every later one gets the saved response back.
use crate::store::{HeaderPair, IdempotencyRecord, RecordView, ResponseView, SavedResponse, Store, StoreView};
use vstd::prelude::*;

verus! {

/// Longest idempotency key, in characters, plus one.
pub const KEY_LENGTH_LIMIT: usize = 50;

/// A key is non-empty and shorter than `KEY_LENGTH_LIMIT` characters.
pub open spec fn key_is_valid(s: Seq<char>) -> bool {
    0 < s.len() < KEY_LENGTH_LIMIT
}

/// A caller-supplied key that names one submission.
pub struct IdempotencyKey(String);

impl View for IdempotencyKey {
    type V = Seq<char>;

    closed spec fn view(&self) -> Seq<char> {
        self.0@
    }
}

impl IdempotencyKey {
    #[verifier::type_invariant]
    closed spec fn valid(self) -> bool {
        key_is_valid(self.0@)
    }

    /// Accepts a key that is neither empty nor too long.
    pub fn parse(s: String) -> (r: Result<IdempotencyKey, String>)
        ensures
            r is Ok <==> key_is_valid(s@),
            r matches Ok(k) ==> k@ == s@,
            r matches Err(m) ==> if s@.len() == 0 {
                m@ == "The idempotency key cannot be empty"@
            } else {
                m@ == "The idempotency key must be shorter than 50 characters"@
            },
    {
        let n = s.as_str().unicode_len();
        if n == 0 {
            Err(String::from_str("The idempotency key cannot be empty"))
        } else if n >= KEY_LENGTH_LIMIT {
            Err(String::from_str("The idempotency key must be shorter than 50 characters"))
        } else {
            Ok(IdempotencyKey(s))
        }
    }

    /// The key.
    pub fn as_ref(&self) -> (r: &str)
        ensures
            r@ == self@,
            key_is_valid(r@),
    {
        proof {
            use_type_invariant(self);
        }
        self.0.as_str()
    }
}

/// The right to complete one reserved ledger record. Only
/// `try_processing` makes one.
pub struct Reservation {
    user_id: u128,
    key: String,
}

impl Reservation {
    pub closed spec fn user(&self) -> u128 {
        self.user_id
    }

    pub closed spec fn key(&self) -> Seq<char> {
        self.key@
    }
}

/// The ledger holds a record of (`user_id`, `key`) that is reserved: no
/// response is saved in it yet.
pub open spec fn is_reserved(s: StoreView, user_id: u128, key: Seq<char>) -> bool {
    match s.record_index(user_id, key) {
        Some(i) => s.ledger[i].response is None,
        None => false,
    }
}

/// What the caller of `try_processing` does next.
pub enum NextAction {
    /// Do the work, then `save_response` (or `abort`) with this reservation.
    StartProcessing(Reservation),
    /// Return this response as it is, and do nothing else.
    ReturnSavedResponse(SavedResponse),
}

/// The failure of `try_processing`.
pub enum IdempotencyError {
    /// The key is reserved, but its owner has not saved a response yet.
    SavedResponseMissing,
}

impl IdempotencyError {
    pub fn message(&self) -> (r: String)
        ensures
            r@ == "Expected saved response was not found"@,
    {
        String::from_str("Expected saved response was not found")
    }
}

/// A copy of the bytes.
pub fn copy_bytes(v: &Vec<u8>) -> (r: Vec<u8>)
    ensures
        r@ == v@,
{
    let mut r: Vec<u8> = Vec::new();
    let mut i: usize = 0;
    while i < v.len()
        invariant
            i <= v@.len(),
            r@ == v@.subrange(0, i as int),
        decreases v@.len() - i,
    {
        r.push(v[i]);
        i = i + 1;
        assert(r@ =~= v@.subrange(0, i as int));
    }
    assert(r@ =~= v@);
    r
}

impl SavedResponse {
    /// A copy of the response, header bytes and body included.
    pub fn duplicate(&self) -> (r: SavedResponse)
        ensures
            r@ == self@,
    {
        let mut headers: Vec<HeaderPair> = Vec::new();
        let mut i: usize = 0;
        while i < self.headers.len()
            invariant
                i <= self.headers@.len(),
                forall|j: int| 0 <= j < i ==> #[trigger] headers@[j]@ == self.headers@[j]@,
                headers@.len() == i,
            decreases self.headers@.len() - i,
        {
            let h = HeaderPair {
                name: self.headers[i].name.clone(),
                value: copy_bytes(&self.headers[i].value),
            };
            headers.push(h);
            i = i + 1;
        }
        let r = SavedResponse {
            status_code: self.status_code,
            headers,
            body: copy_bytes(&self.body),
        };
        assert(r@.headers =~= self@.headers);
        r
    }
}

/// What `try_processing` does: a new (user, key) pair gets a reserved
/// record and the caller does the work (`None`); a completed one hands
/// its response back and changes nothing; a reserved one is an error.
pub open spec fn try_outcome(s: StoreView, user_id: u128, key: Seq<char>, now: i64) -> Result<
    (StoreView, Option<ResponseView>),
    (),
> {
    match s.record_index(user_id, key) {
        None => Ok(
            (s.with_record(RecordView { user_id, key, created_at: now, response: None }), None),
        ),
        Some(i) => match s.ledger[i].response {
            Some(resp) => Ok((s, Some(resp))),
            None => Err(()),
        },
    }
}

impl Store {
    /// Reserves (`user_id`, `key`) for the caller, or hands back the
    /// response saved for it.
    pub fn try_processing(&mut self, key: &IdempotencyKey, user_id: u128, now: i64) -> (r: Result<
        NextAction,
        IdempotencyError,
    >)
        requires
            old(self)@.wf(),
        ensures
            final(self)@.wf(),
            match try_outcome(old(self)@, user_id, key@, now) {
                Ok((s, None)) => final(self)@ == s && (r matches Ok(
                    NextAction::StartProcessing(t),
                ) && t.user() == user_id && t.key() == key@),
                Ok((s, Some(resp))) => final(self)@ == s && (r matches Ok(
                    NextAction::ReturnSavedResponse(saved),
                ) && saved@ == resp),
                Err(_) => final(self)@ == old(self)@ && r is Err,
            },
    {
        match self.find_record(user_id, key.as_ref()) {
            None => {
                let rec = IdempotencyRecord {
                    user_id,
                    key: String::from_str(key.as_ref()),
                    created_at: now,
                    response: None,
                };
                self.insert_record(rec);
                Ok(
                    NextAction::StartProcessing(
                        Reservation { user_id, key: String::from_str(key.as_ref()) },
                    ),
                )
            },
            Some(i) => {
                let rec = self.record(i);
                match &rec.response {
                    Some(resp) => Ok(NextAction::ReturnSavedResponse(resp.duplicate())),
                    None => Err(IdempotencyError::SavedResponseMissing),
                }
            },
        }
    }

    /// The response saved for (`user_id`, `key`), if its record is completed.
    pub fn get_saved_response(&self, key: &IdempotencyKey, user_id: u128) -> (r: Option<
        SavedResponse,
    >)
        requires
            self@.wf(),
        ensures
            match self@.record_index(user_id, key@) {
                Some(i) => match self@.ledger[i].response {
                    Some(resp) => (r matches Some(saved) && saved@ == resp),
                    None => r is None,
                },
                None => r is None,
            },
    {
        match self.find_record(user_id, key.as_ref()) {
            None => None,
            Some(i) => match &self.record(i).response {
                Some(resp) => Some(resp.duplicate()),
                None => None,
            },
        }
    }

    /// Completes the reserved record with `response`, which is returned.
    pub fn save_response(&mut self, reservation: Reservation, response: SavedResponse) -> (r:
        SavedResponse)
        requires
            old(self)@.wf(),
            is_reserved(old(self)@, reservation.user(), reservation.key()),
        ensures
            final(self)@.wf(),
            final(self)@ == old(self)@.with_response(
                reservation.user(),
                reservation.key(),
                response@,
            ),
            r@ == response@,
    {
        let kept = response.duplicate();
        self.complete_record(reservation.user_id, reservation.key.as_str(), kept);
        response
    }

    /// Gives the reservation up: its record is deleted, so that a later
    /// submission with the same key starts afresh.
    pub fn abort(&mut self, reservation: Reservation)
        requires
            old(self)@.wf(),
        ensures
            final(self)@.wf(),
            final(self)@ == old(self)@.without_record(reservation.user(), reservation.key()),
    {
        self.remove_record(reservation.user_id, reservation.key.as_str());
    }
}

} // verus!
