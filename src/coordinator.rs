use vstd::prelude::*;
use crate::sources::{new_uuid, now_timestamp};
use crate::idempotency_key::{key_error, IdempotencyKey, KeyError};
use crate::saved_response::{location_header, ResponseView, SavedResponse, SEE_OTHER};
use crate::store::{
    claimed, commits, deliveries, held, issue_id_taken, rolls_back, saved_in, store_wf,
    IssueView, Store, StoreView, Transaction, TransactionView,
};

verus! {

/// What the caller does next with a command.
pub enum NextAction {
    /// The claim is held: run the command inside this transaction.
    StartProcessing(Transaction),
    /// The command already ran: hand back its response unchanged.
    ReturnSavedResponse(SavedResponse),
}

/// How a command failed.
#[derive(Debug, Clone, Copy, PartialEq, Eq, Structural)]
pub enum CommandError {
    /// The idempotency key is malformed: a client error, never retried.
    Validation(KeyError),
    /// Another attempt holds the claim and has saved no response yet: the
    /// client should resend the same request after a short delay.
    Conflict,
    /// The store refused a write: an internal failure.
    Storage,
}

/// The decision taken for (caller, key) on a given store.
pub enum Processing {
    Start,
    Replay(ResponseView),
    Conflict,
}

/// Replay a saved response if there is one; otherwise start when nobody
/// holds the claim, and report a conflict when someone does.
pub open spec fn processing_result(s: StoreView, caller: u128, key: Seq<char>) -> Processing {
    match saved_in(s.claims, caller, key) {
        Some(v) => Processing::Replay(v),
        None => if held(s, caller, key) {
            Processing::Conflict
        } else {
            Processing::Start
        },
    }
}

/// The fresh transaction that holds the claim on (caller, key).
pub open spec fn fresh_transaction(caller: u128, key: Seq<char>) -> TransactionView {
    TransactionView { caller, key, issues: Seq::empty(), queue: Seq::empty() }
}

/// Looks up a saved response for (caller, key) and, when there is none,
/// claims the pair for a new transaction.
pub fn try_processing(store: &mut Store, key: &IdempotencyKey, caller: u128) -> (r: Result<
    NextAction,
    CommandError,
>)
    requires
        store_wf(old(store)@),
    ensures
        store_wf(final(store)@),
        match processing_result(old(store)@, caller, key@) {
            Processing::Replay(v) => final(store)@ == old(store)@ && (r matches Ok(
                NextAction::ReturnSavedResponse(x),
            ) && x@ == v),
            Processing::Conflict => final(store)@ == old(store)@ && r == Err::<
                NextAction,
                CommandError,
            >(CommandError::Conflict),
            Processing::Start => final(store)@ == claimed(old(store)@, caller, key@) && (r matches Ok(
                NextAction::StartProcessing(tx),
            ) && tx@ == fresh_transaction(caller, key@)),
        },
{
    let k = key.as_string();
    match store.get_saved_response(caller, k) {
        Some(saved) => {
            return Ok(NextAction::ReturnSavedResponse(saved));
        },
        None => {},
    }
    match store.try_claim(caller, k) {
        Ok(tx) => Ok(NextAction::StartProcessing(tx)),
        Err(_) => {
            // The claim was taken by another attempt: it may have committed
            // since the first lookup.
            match store.get_saved_response(caller, k) {
                Some(saved) => Ok(NextAction::ReturnSavedResponse(saved)),
                None => Err(CommandError::Conflict),
            }
        },
    }
}

/// The page that a published newsletter redirects to.
pub open spec fn newsletters_page() -> Seq<char> {
    "/admin/newsletters"@
}

/// The response of a successful publication: a redirect to the newsletters page.
pub open spec fn published_response() -> ResponseView {
    ResponseView {
        status: SEE_OTHER,
        headers: seq![(location_header(), newsletters_page())],
        body: Seq::empty(),
    }
}

/// The issue that a publication records.
pub open spec fn issue_of(
    id: u128,
    title: Seq<char>,
    text_content: Seq<char>,
    html_content: Seq<char>,
    published_at: i64,
) -> IssueView {
    IssueView { id, title, text_content, html_content, published_at }
}

/// The outcome of publishing issue (`title`, `text_content`, `html_content`)
/// under key `raw_key` for `caller` on store `s`, with issue identifier `id`
/// and time `published_at`: `r` is the response or error, `t` the store after.
pub open spec fn publish_spec(
    s: StoreView,
    caller: u128,
    raw_key: Seq<char>,
    title: Seq<char>,
    text_content: Seq<char>,
    html_content: Seq<char>,
    id: u128,
    published_at: i64,
    r: Result<ResponseView, CommandError>,
    t: StoreView,
) -> bool {
    match key_error(raw_key) {
        Some(e) => r == Err::<ResponseView, CommandError>(CommandError::Validation(e)) && t == s,
        None => match processing_result(s, caller, raw_key) {
            Processing::Replay(v) => r == Ok::<ResponseView, CommandError>(v) && t == s,
            Processing::Conflict => r == Err::<ResponseView, CommandError>(CommandError::Conflict)
                && t == s,
            Processing::Start => {
                let tx = TransactionView {
                    issues: seq![issue_of(id, title, text_content, html_content, published_at)],
                    queue: deliveries(id, s.subscribers),
                    ..fresh_transaction(caller, raw_key)
                };
                if issue_id_taken(s, id) {
                    r == Err::<ResponseView, CommandError>(CommandError::Storage) && rolls_back(
                        claimed(s, caller, raw_key),
                        tx,
                        t,
                    )
                } else {
                    r == Ok::<ResponseView, CommandError>(published_response()) && commits(
                        claimed(s, caller, raw_key),
                        tx,
                        published_response(),
                        t,
                    )
                }
            },
        },
    }
}

/// A command's result, with the response seen as its value.
pub open spec fn result_view(r: Result<SavedResponse, CommandError>) -> Result<
    ResponseView,
    CommandError,
> {
    match r {
        Ok(x) => Ok(x@),
        Err(e) => Err(e),
    }
}

/// The form of a newsletter publication.
#[derive(Debug)]
pub struct FormData {
    pub title: String,
    pub text_content: String,
    pub html_content: String,
    pub idempotency_key: String,
}

/// Publishes a newsletter issue with identifier `id` at time `published_at`:
/// validates the key, replays a saved response, or records the issue and
/// one delivery per confirmed subscriber in one transaction that also saves
/// the redirect response. A taken issue identifier rolls everything back.
pub fn publish_newsletter_with(
    store: &mut Store,
    caller: u128,
    form: FormData,
    id: u128,
    published_at: i64,
) -> (r: Result<SavedResponse, CommandError>)
    requires
        store_wf(old(store)@),
    ensures
        store_wf(final(store)@),
        publish_spec(
            old(store)@,
            caller,
            form.idempotency_key@,
            form.title@,
            form.text_content@,
            form.html_content@,
            id,
            published_at,
            result_view(r),
            final(store)@,
        ),
{
    let FormData { title, text_content, html_content, idempotency_key } = form;
    let ghost raw = idempotency_key@;
    let key = match IdempotencyKey::parse(idempotency_key) {
        Ok(k) => k,
        Err(e) => {
            return Err(CommandError::Validation(e));
        },
    };
    let mut tx = match try_processing(store, &key, caller) {
        Ok(NextAction::StartProcessing(tx)) => tx,
        Ok(NextAction::ReturnSavedResponse(saved)) => {
            return Ok(saved);
        },
        Err(e) => {
            return Err(e);
        },
    };
    let ghost s = old(store)@;
    assert(store@.in_flight[store@.in_flight.len() - 1] == (caller, raw));
    if store.has_issue(id) {
        store.rollback(tx);
        return Err(CommandError::Storage);
    }
    tx.insert_newsletter_issue(
        id,
        title.as_str(),
        text_content.as_str(),
        html_content.as_str(),
        published_at,
    );
    store.enqueue_delivery_tasks(&mut tx, id);
    let response = SavedResponse::see_other("/admin/newsletters");
    let saved = store.save_response(tx, response);
    assert(saved@ =~= published_response());
    Ok(saved)
}

/// Publishes a newsletter issue under a fresh random identifier, stamped with
/// the current time; see `publish_newsletter_with`.
pub fn publish_newsletter(store: &mut Store, caller: u128, form: FormData) -> (r: Result<
    SavedResponse,
    CommandError,
>)
    requires
        store_wf(old(store)@),
    ensures
        store_wf(final(store)@),
        exists|id: u128, published_at: i64|
            #[trigger] publish_spec(
                old(store)@,
                caller,
                form.idempotency_key@,
                form.title@,
                form.text_content@,
                form.html_content@,
                id,
                published_at,
                result_view(r),
                final(store)@,
            ),
{
    let id = new_uuid();
    let published_at = now_timestamp();
    publish_newsletter_with(store, caller, form, id, published_at)
}

/// The message shown once a newsletter issue is accepted.
pub fn success_message() -> (r: &'static str)
    ensures
        r@ == accepted_message(),
{
    "The newsletter issue has been accepted - emails will go out shortly."
}

pub open spec fn accepted_message() -> Seq<char> {
    "The newsletter issue has been accepted - emails will go out shortly."@
}

} // verus!
