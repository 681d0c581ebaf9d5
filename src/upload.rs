use crate::multipart_form::{single_file_body, utf8, MultiPartForm, FORM_BOUNDARY, file_part, closing};
use vstd::prelude::*;

verus! {

/// The pause between a failed submission and the next one, in milliseconds.
pub const UPLOAD_BACKOFF_MS: u32 = 5000;

/// The form field that carries the frame.
pub const UPLOAD_FIELD: &'static str = "file";

/// What the upload loop does after a submission.
pub enum UploadAction {
    /// The server answered: take the next frame.
    Done,
    /// The transport failed: sleep this many milliseconds, then submit the same body again.
    RetryAfter(u32),
}

/// One frame on its way to the server: its encoded body and how it has fared.
pub struct UploadAttempt {
    body: Vec<u8>,
    attempts: u64,
    delivered: bool,
}

/// The state of an upload attempt.
pub struct AttemptView {
    pub body: Seq<u8>,
    pub attempts: nat,
    pub delivered: bool,
}

/// The state after one submission whose transport succeeded (`ok`) or failed.
pub open spec fn after_result(v: AttemptView, ok: bool) -> AttemptView {
    AttemptView { body: v.body, attempts: v.attempts + 1, delivered: ok }
}

/// The action that follows a submission whose transport succeeded (`ok`) or failed.
pub open spec fn action_for(ok: bool) -> UploadAction {
    if ok {
        UploadAction::Done
    } else {
        UploadAction::RetryAfter(UPLOAD_BACKOFF_MS)
    }
}

impl UploadAttempt {
    pub closed spec fn view(&self) -> AttemptView {
        AttemptView { body: self.body@, attempts: self.attempts as nat, delivered: self.delivered }
    }

    /// Encodes `frame` as the single file part of a body built on `form`;
    /// nothing has been submitted yet.
    pub fn encode(form: &mut MultiPartForm, frame: &[u8]) -> (r: Self)
        requires
            old(form).wf(),
        ensures
            final(form).wf(),
            final(form).pending() == Seq::<u8>::empty(),
            r.view().body == old(form).pending() + file_part(utf8(FORM_BOUNDARY), utf8(UPLOAD_FIELD), frame@)
                + closing(utf8(FORM_BOUNDARY)),
            old(form).pending() == Seq::<u8>::empty() ==> r.view().body == single_file_body(
                utf8(FORM_BOUNDARY),
                utf8(UPLOAD_FIELD),
                frame@,
            ),
            r.view().attempts == 0,
            !r.view().delivered,
    {
        form.add_file(UPLOAD_FIELD, frame);
        let body = form.wrap_up();
        assert(old(form).pending() == Seq::<u8>::empty() ==> body@ =~= single_file_body(
            utf8(FORM_BOUNDARY),
            utf8(UPLOAD_FIELD),
            frame@,
        ));
        UploadAttempt { body, attempts: 0, delivered: false }
    }

    /// The encoded body, the same for every submission.
    pub fn body(&self) -> (r: &Vec<u8>)
        ensures
            r@ == self.view().body,
    {
        &self.body
    }

    /// How many submissions have been recorded.
    pub fn attempts(&self) -> (r: u64)
        ensures
            r == self.view().attempts,
    {
        self.attempts
    }

    /// Whether a submission reached the server.
    pub fn is_delivered(&self) -> (r: bool)
        ensures
            r == self.view().delivered,
    {
        self.delivered
    }

    /// Records the outcome of one submission of `body()`: a transport success
    /// (whatever the status code) ends the attempt, a transport failure asks for
    /// a retry of the same body after the backoff.
    pub fn record_result(&mut self, transport_ok: bool) -> (r: UploadAction)
        requires
            !old(self).view().delivered,
            old(self).view().attempts < u64::MAX,
        ensures
            final(self).view() == after_result(old(self).view(), transport_ok),
            r == action_for(transport_ok),
    {
        self.attempts = self.attempts + 1;
        self.delivered = transport_ok;
        if transport_ok {
            UploadAction::Done
        } else {
            UploadAction::RetryAfter(UPLOAD_BACKOFF_MS)
        }
    }
}

/// Feeds transport outcomes to an attempt, one per submission, until it is delivered:
/// the final state and the actions taken, in order.
pub open spec fn replay(v: AttemptView, outcomes: Seq<bool>) -> (AttemptView, Seq<UploadAction>)
    decreases outcomes.len(),
{
    if outcomes.len() == 0 || v.delivered {
        (v, Seq::empty())
    } else {
        let (w, actions) = replay(after_result(v, outcomes[0]), outcomes.drop_first());
        (w, seq![action_for(outcomes[0])] + actions)
    }
}

/// `m` transport failures followed by one success.
pub open spec fn fails_then_succeeds(m: nat) -> Seq<bool> {
    Seq::new(m, |i: int| false).push(true)
}

/// Against a transport that fails `m` times and then succeeds, a fresh attempt is
/// submitted exactly `m + 1` times, always with the same body, sleeps the full backoff
/// after each failure and finishes exactly once, at the end.
pub proof fn lemma_retry_until_success(body: Seq<u8>, m: nat)
    ensures
        ({
            let (w, actions) = replay(
                AttemptView { body, attempts: 0, delivered: false },
                fails_then_succeeds(m),
            );
            &&& w.attempts == m + 1
            &&& w.delivered
            &&& w.body == body
            &&& actions.len() == m + 1
            &&& forall|i: int| 0 <= i < m ==> actions[i] == UploadAction::RetryAfter(UPLOAD_BACKOFF_MS)
            &&& actions[m as int] == UploadAction::Done
        }),
{
    lemma_retry_from(AttemptView { body, attempts: 0, delivered: false }, m);
}

proof fn lemma_retry_from(v: AttemptView, m: nat)
    requires
        !v.delivered,
    ensures
        ({
            let (w, actions) = replay(v, fails_then_succeeds(m));
            &&& w.attempts == v.attempts + m + 1
            &&& w.delivered
            &&& w.body == v.body
            &&& actions.len() == m + 1
            &&& forall|i: int| 0 <= i < m ==> actions[i] == UploadAction::RetryAfter(UPLOAD_BACKOFF_MS)
            &&& actions[m as int] == UploadAction::Done
        }),
    decreases m,
{
    let outcomes = fails_then_succeeds(m);
    if m == 0 {
        assert(outcomes[0]);
        assert(outcomes.drop_first() =~= Seq::<bool>::empty());
        let (w, rest) = replay(after_result(v, true), Seq::<bool>::empty());
        assert(rest.len() == 0);
        assert(replay(v, outcomes).1 == seq![action_for(true)] + rest);
    } else {
        assert(!outcomes[0]);
        assert(outcomes.drop_first() =~= fails_then_succeeds((m - 1) as nat));
        lemma_retry_from(after_result(v, false), (m - 1) as nat);
        let (w, rest) = replay(after_result(v, false), fails_then_succeeds((m - 1) as nat));
        let actions = seq![action_for(false)] + rest;
        assert(replay(v, outcomes).1 == actions);
        assert forall|i: int| 0 <= i < m implies actions[i] == UploadAction::RetryAfter(UPLOAD_BACKOFF_MS) by {
            if i > 0 {
                assert(actions[i] == rest[i - 1]);
            }
        }
    }
}

} // verus!
