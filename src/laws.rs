use vstd::prelude::*;
use crate::coordinator::{
    issue_of, processing_result, publish_spec, published_response, CommandError, Processing,
};
use crate::idempotency_key::key_error;
use crate::saved_response::ResponseView;
use crate::store::{
    claimed, commits, confirmed_emails, deliveries, held, rolls_back, saved_in, StoreView,
    TransactionView,
};

verus! {

/// Once a transaction commits, looking up its (caller, key) gives back the
/// saved response exactly: same status, same headers in the same order,
/// same body.
pub proof fn lemma_saved_response_round_trip(
    s: StoreView,
    tx: TransactionView,
    response: ResponseView,
    t: StoreView,
)
    requires
        commits(s, tx, response, t),
    ensures
        saved_in(t.claims, tx.caller, tx.key) == Some(response),
{
}

/// Sending the same publication twice in a row gives the same result twice,
/// and the second call changes nothing: no second issue, no second set of
/// deliveries. The first call adds at most one issue.
pub proof fn lemma_resubmission_replays(
    s0: StoreView,
    s1: StoreView,
    s2: StoreView,
    caller: u128,
    raw_key: Seq<char>,
    title: Seq<char>,
    text_content: Seq<char>,
    html_content: Seq<char>,
    id1: u128,
    published_at1: i64,
    id2: u128,
    published_at2: i64,
    r1: Result<ResponseView, CommandError>,
    r2: Result<ResponseView, CommandError>,
)
    requires
        publish_spec(
            s0,
            caller,
            raw_key,
            title,
            text_content,
            html_content,
            id1,
            published_at1,
            r1,
            s1,
        ),
        r1 is Ok,
        publish_spec(
            s1,
            caller,
            raw_key,
            title,
            text_content,
            html_content,
            id2,
            published_at2,
            r2,
            s2,
        ),
    ensures
        r2 == r1,
        s2 == s1,
        s1.issues.len() <= s0.issues.len() + 1,
{
    assert(saved_in(s1.claims, caller, raw_key) == Some(r1->Ok_0)) by {
        match processing_result(s0, caller, raw_key) {
            Processing::Start => {
                let tx = TransactionView {
                    caller,
                    key: raw_key,
                    issues: seq![issue_of(id1, title, text_content, html_content, published_at1)],
                    queue: deliveries(id1, s0.subscribers),
                };
                lemma_saved_response_round_trip(
                    claimed(s0, caller, raw_key),
                    tx,
                    published_response(),
                    s1,
                );
            },
            _ => {},
        }
    }
}

/// While one attempt holds the claim on (caller, key) and has saved no
/// response, a second attempt with the same pair gets a retryable conflict
/// and changes nothing.
pub proof fn lemma_concurrent_attempt_conflicts(
    s: StoreView,
    caller: u128,
    raw_key: Seq<char>,
    title: Seq<char>,
    text_content: Seq<char>,
    html_content: Seq<char>,
    id: u128,
    published_at: i64,
    r: Result<ResponseView, CommandError>,
    t: StoreView,
)
    requires
        key_error(raw_key) is None,
        processing_result(s, caller, raw_key) is Start,
        publish_spec(
            claimed(s, caller, raw_key),
            caller,
            raw_key,
            title,
            text_content,
            html_content,
            id,
            published_at,
            r,
            t,
        ),
    ensures
        processing_result(claimed(s, caller, raw_key), caller, raw_key) is Conflict,
        r == Err::<ResponseView, CommandError>(CommandError::Conflict),
        t == claimed(s, caller, raw_key),
{
    let c = claimed(s, caller, raw_key);
    assert(c.in_flight[c.in_flight.len() - 1] == (caller, raw_key));
    assert(held(c, caller, raw_key));
}

/// Claiming (caller, key) leaves the decision for any other pair as it was.
pub proof fn lemma_claim_keeps_other_keys(
    s: StoreView,
    caller: u128,
    key: Seq<char>,
    other_caller: u128,
    other_key: Seq<char>,
)
    requires
        (caller, key) != (other_caller, other_key),
    ensures
        processing_result(claimed(s, caller, key), other_caller, other_key) == processing_result(
            s,
            other_caller,
            other_key,
        ),
{
    let c = claimed(s, caller, key);
    if held(s, other_caller, other_key) {
        let i = choose|i: int| 0 <= i < s.in_flight.len() && s.in_flight[i] == (other_caller, other_key);
        assert(c.in_flight[i] == (other_caller, other_key));
    }
    if held(c, other_caller, other_key) {
        let i = choose|i: int| 0 <= i < c.in_flight.len() && c.in_flight[i] == (other_caller, other_key);
        assert(i < s.in_flight.len());
        assert(s.in_flight[i] == (other_caller, other_key));
    }
}

/// Committing or rolling back the transaction of one (caller, key) pair
/// leaves the decision for any other pair as it was.
pub proof fn lemma_finish_keeps_other_keys(
    s: StoreView,
    tx: TransactionView,
    response: ResponseView,
    t: StoreView,
    other_caller: u128,
    other_key: Seq<char>,
)
    requires
        (tx.caller, tx.key) != (other_caller, other_key),
        commits(s, tx, response, t) || rolls_back(s, tx, t),
    ensures
        processing_result(t, other_caller, other_key) == processing_result(
            s,
            other_caller,
            other_key,
        ),
{
    assert(held(t, other_caller, other_key) == held(s, other_caller, other_key));
    if commits(s, tx, response, t) {
        assert(t.claims.drop_last() =~= s.claims);
    }
}

/// A publication that claims its key either commits the issue together with
/// exactly one delivery per confirmed subscriber, or, when it fails, leaves
/// issues and deliveries untouched.
pub proof fn lemma_enqueue_all_or_nothing(
    s: StoreView,
    t: StoreView,
    caller: u128,
    raw_key: Seq<char>,
    title: Seq<char>,
    text_content: Seq<char>,
    html_content: Seq<char>,
    id: u128,
    published_at: i64,
    r: Result<ResponseView, CommandError>,
)
    requires
        key_error(raw_key) is None,
        processing_result(s, caller, raw_key) is Start,
        publish_spec(
            s,
            caller,
            raw_key,
            title,
            text_content,
            html_content,
            id,
            published_at,
            r,
            t,
        ),
    ensures
        r is Ok ==> t.issues == s.issues.push(
            issue_of(id, title, text_content, html_content, published_at),
        ) && t.queue == s.queue + deliveries(id, s.subscribers) && deliveries(
            id,
            s.subscribers,
        ).len() == confirmed_emails(s.subscribers).len(),
        r is Err ==> t.issues == s.issues && t.queue == s.queue,
{
    assert(s.issues + seq![issue_of(id, title, text_content, html_content, published_at)]
        =~= s.issues.push(issue_of(id, title, text_content, html_content, published_at)));
}

} // verus!
