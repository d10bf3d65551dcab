use vstd::prelude::*;
use crate::saved_response::{ResponseView, SavedResponse};
use crate::sources::{new_uuid, now_timestamp};
use crate::subscriptions::NewSubscriber;

verus! {

/// A resolved processing claim: the response saved for (caller, key).
#[derive(Debug)]
pub struct ClaimRow {
    pub caller: u128,
    pub key: String,
    pub response: SavedResponse,
}

/// A (caller, key) pair whose claim is held by an open transaction.
#[derive(Debug)]
pub struct ClaimKey {
    pub caller: u128,
    pub key: String,
}

/// A published newsletter issue.
#[derive(Debug)]
pub struct IssueRow {
    pub id: u128,
    pub title: String,
    pub text_content: String,
    pub html_content: String,
    pub published_at: i64,
}

/// A pending delivery of an issue to one subscriber.
#[derive(Debug)]
pub struct QueueRow {
    pub issue_id: u128,
    pub email: String,
}

/// A subscriber, confirmed or still pending confirmation.
#[derive(Debug)]
pub struct SubscriberRow {
    pub id: u128,
    pub email: String,
    pub name: String,
    pub subscribed_at: i64,
    pub confirmed: bool,
}

/// A subscription token, sent to a subscriber to confirm the subscription.
#[derive(Debug)]
pub struct TokenRow {
    pub token: String,
    pub subscriber_id: u128,
}

pub struct SubscriberView {
    pub id: u128,
    pub email: Seq<char>,
    pub name: Seq<char>,
    pub subscribed_at: i64,
    pub confirmed: bool,
}

pub struct ClaimView {
    pub caller: u128,
    pub key: Seq<char>,
    pub response: ResponseView,
}

pub struct IssueView {
    pub id: u128,
    pub title: Seq<char>,
    pub text_content: Seq<char>,
    pub html_content: Seq<char>,
    pub published_at: i64,
}

impl View for ClaimRow {
    type V = ClaimView;

    open spec fn view(&self) -> ClaimView {
        ClaimView { caller: self.caller, key: self.key@, response: self.response@ }
    }
}

impl View for ClaimKey {
    type V = (u128, Seq<char>);

    open spec fn view(&self) -> (u128, Seq<char>) {
        (self.caller, self.key@)
    }
}

impl View for IssueRow {
    type V = IssueView;

    open spec fn view(&self) -> IssueView {
        IssueView {
            id: self.id,
            title: self.title@,
            text_content: self.text_content@,
            html_content: self.html_content@,
            published_at: self.published_at,
        }
    }
}

impl View for QueueRow {
    type V = (u128, Seq<char>);

    open spec fn view(&self) -> (u128, Seq<char>) {
        (self.issue_id, self.email@)
    }
}

impl View for SubscriberRow {
    type V = SubscriberView;

    open spec fn view(&self) -> SubscriberView {
        SubscriberView {
            id: self.id,
            email: self.email@,
            name: self.name@,
            subscribed_at: self.subscribed_at,
            confirmed: self.confirmed,
        }
    }
}

impl View for TokenRow {
    type V = (Seq<char>, u128);

    open spec fn view(&self) -> (Seq<char>, u128) {
        (self.token@, self.subscriber_id)
    }
}

/// The committed tables, plus the claims held by open transactions.
pub struct StoreView {
    pub claims: Seq<ClaimView>,
    pub in_flight: Seq<(u128, Seq<char>)>,
    pub issues: Seq<IssueView>,
    pub queue: Seq<(u128, Seq<char>)>,
    pub subscribers: Seq<SubscriberView>,
    pub tokens: Seq<(Seq<char>, u128)>,
}

/// The writes of an open transaction, not yet visible in the store.
pub struct TransactionView {
    pub caller: u128,
    pub key: Seq<char>,
    pub issues: Seq<IssueView>,
    pub queue: Seq<(u128, Seq<char>)>,
}

/// The response saved for (caller, key), if any; a later row wins.
pub open spec fn saved_in(claims: Seq<ClaimView>, caller: u128, key: Seq<char>) -> Option<
    ResponseView,
>
    decreases claims.len(),
{
    if claims.len() == 0 {
        None
    } else if claims.last().caller == caller && claims.last().key == key {
        Some(claims.last().response)
    } else {
        saved_in(claims.drop_last(), caller, key)
    }
}

/// The row of a subscriber who has not confirmed yet.
pub open spec fn pending_subscriber(
    id: u128,
    email: Seq<char>,
    name: Seq<char>,
    subscribed_at: i64,
) -> SubscriberView {
    SubscriberView { id, email, name, subscribed_at, confirmed: false }
}

/// The e-mail addresses of the confirmed subscribers, in table order.
pub open spec fn confirmed_emails(subscribers: Seq<SubscriberView>) -> Seq<Seq<char>>
    decreases subscribers.len(),
{
    if subscribers.len() == 0 {
        Seq::empty()
    } else if subscribers.last().confirmed {
        confirmed_emails(subscribers.drop_last()).push(subscribers.last().email)
    } else {
        confirmed_emails(subscribers.drop_last())
    }
}

/// One delivery-queue row per confirmed subscriber, for the given issue.
pub open spec fn deliveries(issue_id: u128, subscribers: Seq<SubscriberView>) -> Seq<
    (u128, Seq<char>),
> {
    confirmed_emails(subscribers).map_values(|e: Seq<char>| (issue_id, e))
}

/// The number of delivery-queue rows for issue `issue_id`.
pub open spec fn rows_for(queue: Seq<(u128, Seq<char>)>, issue_id: u128) -> nat
    decreases queue.len(),
{
    if queue.len() == 0 {
        0
    } else if queue.last().0 == issue_id {
        rows_for(queue.drop_last(), issue_id) + 1
    } else {
        rows_for(queue.drop_last(), issue_id)
    }
}

/// Whether a committed issue already has the identifier `id`.
pub open spec fn issue_id_taken(s: StoreView, id: u128) -> bool {
    exists|i: int| 0 <= i < s.issues.len() && #[trigger] s.issues[i].id == id
}

/// Whether an open transaction holds the claim on (caller, key).
pub open spec fn held(s: StoreView, caller: u128, key: Seq<char>) -> bool {
    s.in_flight.contains((caller, key))
}

/// Claims in flight are distinct and none of them is already resolved.
pub open spec fn store_wf(s: StoreView) -> bool {
    &&& forall|i: int, j: int|
        0 <= i < j < s.in_flight.len() ==> s.in_flight[i] != s.in_flight[j]
    &&& forall|i: int|
        0 <= i < s.in_flight.len() ==> (saved_in(s.claims, #[trigger] s.in_flight[i].0, s.in_flight[i].1) is None)
}

/// `after` holds the claims of `before` except `p`.
pub open spec fn released(
    before: Seq<(u128, Seq<char>)>,
    after: Seq<(u128, Seq<char>)>,
    p: (u128, Seq<char>),
) -> bool {
    forall|q: (u128, Seq<char>)| #[trigger] after.contains(q) <==> (before.contains(q) && q != p)
}

/// `t` is the store `s` after `tx` committed with `response` saved as its
/// last write: every write of `tx` appears at once, and its claim is resolved.
pub open spec fn commits(
    s: StoreView,
    tx: TransactionView,
    response: ResponseView,
    t: StoreView,
) -> bool {
    &&& t.claims == s.claims.push(ClaimView { caller: tx.caller, key: tx.key, response })
    &&& t.issues == s.issues + tx.issues
    &&& t.queue == s.queue + tx.queue
    &&& t.subscribers == s.subscribers
    &&& t.tokens == s.tokens
    &&& released(s.in_flight, t.in_flight, (tx.caller, tx.key))
}

/// `t` is the store `s` after `tx` was rolled back: none of its writes
/// appear, and only its claim is released.
pub open spec fn rolls_back(s: StoreView, tx: TransactionView, t: StoreView) -> bool {
    &&& t.claims == s.claims
    &&& t.issues == s.issues
    &&& t.queue == s.queue
    &&& t.subscribers == s.subscribers
    &&& t.tokens == s.tokens
    &&& released(s.in_flight, t.in_flight, (tx.caller, tx.key))
}

/// The store after (caller, key) is claimed by a new transaction.
pub open spec fn claimed(s: StoreView, caller: u128, key: Seq<char>) -> StoreView {
    StoreView { in_flight: s.in_flight.push((caller, key)), ..s }
}

proof fn lemma_remove_releases(a: Seq<(u128, Seq<char>)>, idx: int)
    requires
        0 <= idx < a.len(),
        forall|i: int, j: int| 0 <= i < j < a.len() ==> a[i] != a[j],
    ensures
        released(a, a.remove(idx), a[idx]),
        forall|i: int, j: int|
            0 <= i < j < a.remove(idx).len() ==> a.remove(idx)[i] != a.remove(idx)[j],
{
    let b = a.remove(idx);
    let p = a[idx];
    assert(b.len() == a.len() - 1);
    assert forall|j: int| 0 <= j < b.len() implies b[j] == (if j < idx {
        a[j]
    } else {
        a[j + 1]
    }) by {}
    assert forall|q: (u128, Seq<char>)| #[trigger] b.contains(q) <==> (a.contains(q) && q != p) by {
        if b.contains(q) {
            let j = choose|j: int| 0 <= j < b.len() && b[j] == q;
            let k = if j < idx {
                j
            } else {
                j + 1
            };
            assert(a[k] == q);
            assert(k != idx);
        }
        if a.contains(q) && q != p {
            let k = choose|k: int| 0 <= k < a.len() && a[k] == q;
            assert(k != idx);
            let j = if k < idx {
                k
            } else {
                k - 1
            };
            assert(b[j] == q);
        }
    }
    assert forall|i: int, j: int| 0 <= i < j < b.len() implies b[i] != b[j] by {
        let i2 = if i < idx {
            i
        } else {
            i + 1
        };
        let j2 = if j < idx {
            j
        } else {
            j + 1
        };
        assert(a[i2] != a[j2]);
    }
}

/// An in-memory relational store with claim, response, issue, queue and
/// subscriber tables.
pub struct Store {
    claims: Vec<ClaimRow>,
    in_flight: Vec<ClaimKey>,
    issues: Vec<IssueRow>,
    queue: Vec<QueueRow>,
    subscribers: Vec<SubscriberRow>,
    tokens: Vec<TokenRow>,
}

impl View for Store {
    type V = StoreView;

    closed spec fn view(&self) -> StoreView {
        StoreView {
            claims: self.claims@.map_values(|r: ClaimRow| r@),
            in_flight: self.in_flight@.map_values(|r: ClaimKey| r@),
            issues: self.issues@.map_values(|r: IssueRow| r@),
            queue: self.queue@.map_values(|r: QueueRow| r@),
            subscribers: self.subscribers@.map_values(|r: SubscriberRow| r@),
            tokens: self.tokens@.map_values(|r: TokenRow| r@),
        }
    }
}

/// An open transaction that holds the claim on one (caller, key) pair.
pub struct Transaction {
    caller: u128,
    key: String,
    issues: Vec<IssueRow>,
    queue: Vec<QueueRow>,
}

impl View for Transaction {
    type V = TransactionView;

    closed spec fn view(&self) -> TransactionView {
        TransactionView {
            caller: self.caller,
            key: self.key@,
            issues: self.issues@.map_values(|r: IssueRow| r@),
            queue: self.queue@.map_values(|r: QueueRow| r@),
        }
    }
}

impl Store {
    /// An empty store.
    pub fn new() -> (r: Store)
        ensures
            r@.claims.len() == 0,
            r@.in_flight.len() == 0,
            r@.issues.len() == 0,
            r@.queue.len() == 0,
            r@.subscribers.len() == 0,
            r@.tokens.len() == 0,
            store_wf(r@),
    {
        Store {
            claims: Vec::new(),
            in_flight: Vec::new(),
            issues: Vec::new(),
            queue: Vec::new(),
            subscribers: Vec::new(),
            tokens: Vec::new(),
        }
    }

    /// Records a subscriber; only confirmed ones receive deliveries.
    pub fn add_subscriber(&mut self, row: SubscriberRow)
        requires
            store_wf(old(self)@),
        ensures
            final(self)@ == (StoreView {
                subscribers: old(self)@.subscribers.push(row@),
                ..old(self)@
            }),
            store_wf(final(self)@),
    {
        let ghost v = row@;
        self.subscribers.push(row);
        assert(self@.subscribers =~= old(self)@.subscribers.push(v));
        assert(self@.claims =~= old(self)@.claims);
        assert(self@.in_flight =~= old(self)@.in_flight);
        assert(self@.issues =~= old(self)@.issues);
        assert(self@.queue =~= old(self)@.queue);
        assert(self@.tokens =~= old(self)@.tokens);
    }

    /// Records `new_subscriber` as pending confirmation, under a fresh random
    /// identifier and the current time; returns the identifier.
    pub fn insert_subscriber(&mut self, new_subscriber: &NewSubscriber) -> (r: u128)
        requires
            store_wf(old(self)@),
        ensures
            store_wf(final(self)@),
            exists|subscribed_at: i64|
                final(self)@ == (StoreView {
                    subscribers: old(self)@.subscribers.push(
                        #[trigger] pending_subscriber(
                            r,
                            new_subscriber.email@,
                            new_subscriber.name@,
                            subscribed_at,
                        ),
                    ),
                    ..old(self)@
                }),
    {
        let id = new_uuid();
        let subscribed_at = now_timestamp();
        let row = SubscriberRow {
            id,
            email: new_subscriber.email.clone(),
            name: String::from_str(new_subscriber.name.as_str()),
            subscribed_at,
            confirmed: false,
        };
        assert(row@ == pending_subscriber(id, new_subscriber.email@, new_subscriber.name@, subscribed_at));
        self.add_subscriber(row);
        id
    }

    /// Records `subscription_token` for the subscriber `subscriber_id`.
    pub fn store_token(&mut self, subscriber_id: u128, subscription_token: &str)
        requires
            store_wf(old(self)@),
        ensures
            final(self)@ == (StoreView {
                tokens: old(self)@.tokens.push((subscription_token@, subscriber_id)),
                ..old(self)@
            }),
            store_wf(final(self)@),
    {
        self.tokens.push(TokenRow { token: String::from_str(subscription_token), subscriber_id });
        assert(self@.tokens =~= old(self)@.tokens.push((subscription_token@, subscriber_id)));
        assert(self@.claims =~= old(self)@.claims);
        assert(self@.in_flight =~= old(self)@.in_flight);
        assert(self@.issues =~= old(self)@.issues);
        assert(self@.queue =~= old(self)@.queue);
        assert(self@.subscribers =~= old(self)@.subscribers);
    }

    /// The number of subscription tokens recorded.
    pub fn token_count(&self) -> (r: usize)
        ensures
            r == self@.tokens.len(),
    {
        self.tokens.len()
    }

    /// The response saved for (caller, key), if any. Claims still held by
    /// open transactions have none.
    pub fn get_saved_response(&self, caller: u128, key: &String) -> (r: Option<SavedResponse>)
        ensures
            match r {
                Some(x) => saved_in(self@.claims, caller, key@) == Some(x@),
                None => saved_in(self@.claims, caller, key@) is None,
            },
    {
        let ghost rows = self@.claims;
        let mut i: usize = self.claims.len();
        assert(rows.subrange(0, i as int) =~= rows);
        while i > 0
            invariant
                i <= rows.len(),
                rows == self@.claims,
                saved_in(rows, caller, key@) == saved_in(rows.subrange(0, i as int), caller, key@),
            decreases i,
        {
            let row = &self.claims[i - 1];
            let ghost pre = rows.subrange(0, i as int);
            assert(pre.drop_last() =~= rows.subrange(0, i - 1));
            assert(pre.last() == row@);
            if row.caller == caller && row.key == *key {
                return Some(row.response.replay());
            }
            i = i - 1;
        }
        assert(rows.subrange(0, 0) =~= Seq::<ClaimView>::empty());
        None
    }

    /// Whether a committed issue already has the identifier `id`.
pub open spec fn issue_id_taken(s: StoreView, id: u128) -> bool {
    exists|i: int| 0 <= i < s.issues.len() && #[trigger] s.issues[i].id == id
}

/// Whether an open transaction holds the claim on (caller, key).
    fn find_in_flight(&self, caller: u128, key: &String) -> (r: Option<usize>)
        ensures
            match r {
                Some(i) => i < self@.in_flight.len() && self@.in_flight[i as int] == (caller, key@),
                None => !held(self@, caller, key@),
            },
    {
        let mut i: usize = 0;
        while i < self.in_flight.len()
            invariant
                i <= self@.in_flight.len(),
                forall|j: int| 0 <= j < i ==> self@.in_flight[j] != (caller, key@),
            decreases self@.in_flight.len() - i,
        {
            if self.in_flight[i].caller == caller && self.in_flight[i].key == *key {
                return Some(i);
            }
            i = i + 1;
        }
        None
    }

    /// Claims (caller, key) for a new transaction. Fails when a response is
    /// already saved for the pair or another transaction holds its claim.
    pub fn try_claim(&mut self, caller: u128, key: &String) -> (r: Result<Transaction, ClaimError>)
        requires
            store_wf(old(self)@),
        ensures
            store_wf(final(self)@),
            (r is Ok) <==> (saved_in(old(self)@.claims, caller, key@) is None && !held(
                old(self)@,
                caller,
                key@,
            )),
            r matches Ok(tx) ==> final(self)@ == claimed(old(self)@, caller, key@) && tx@
                == (TransactionView { caller, key: key@, issues: Seq::empty(), queue: Seq::empty() }),
            r is Err ==> final(self)@ == old(self)@,
    {
        let saved = self.get_saved_response(caller, key);
        if saved.is_some() {
            return Err(ClaimError::AlreadyClaimed);
        }
        if self.find_in_flight(caller, key).is_some() {
            return Err(ClaimError::AlreadyClaimed);
        }
        self.in_flight.push(ClaimKey { caller, key: key.clone() });
        let tx = Transaction { caller, key: key.clone(), issues: Vec::new(), queue: Vec::new() };
        assert(self@.in_flight =~= old(self)@.in_flight.push((caller, key@)));
        assert(self@.claims =~= old(self)@.claims);
        assert(self@.issues =~= old(self)@.issues);
        assert(self@.queue =~= old(self)@.queue);
        assert(self@.subscribers =~= old(self)@.subscribers);
        assert(self@.tokens =~= old(self)@.tokens);
        assert(tx@.issues =~= Seq::<IssueView>::empty());
        assert(tx@.queue =~= Seq::<(u128, Seq<char>)>::empty());
        Ok(tx)
    }

    /// Schedules, inside `tx`, one delivery of issue `issue_id` to each
    /// currently confirmed subscriber.
    pub fn enqueue_delivery_tasks(&self, tx: &mut Transaction, issue_id: u128)
        ensures
            final(tx)@ == (TransactionView {
                queue: old(tx)@.queue + deliveries(issue_id, self@.subscribers),
                ..old(tx)@
            }),
    {
        let ghost subs = self@.subscribers;
        let ghost base = old(tx)@.queue;
        let mut i: usize = 0;
        while i < self.subscribers.len()
            invariant
                i <= subs.len(),
                subs == self@.subscribers,
                tx@ == (TransactionView {
                    queue: base + deliveries(issue_id, subs.subrange(0, i as int)),
                    ..old(tx)@
                }),
            decreases subs.len() - i,
        {
            let row = &self.subscribers[i];
            let ghost pre = subs.subrange(0, i + 1);
            assert(pre.drop_last() =~= subs.subrange(0, i as int));
            assert(pre.last() == row@);
            let ghost before = tx@;
            if row.confirmed {
                tx.queue.push(QueueRow { issue_id, email: row.email.clone() });
                assert(tx@.queue =~= before.queue.push((issue_id, row.email@)));
                assert(deliveries(issue_id, pre) =~= deliveries(
                    issue_id,
                    subs.subrange(0, i as int),
                ).push((issue_id, row.email@)));
                assert(tx@.queue =~= base + deliveries(issue_id, pre));
            } else {
                assert(deliveries(issue_id, pre) =~= deliveries(
                    issue_id,
                    subs.subrange(0, i as int),
                ));
            }
            assert(tx@.issues =~= old(tx)@.issues);
            i = i + 1;
        }
        assert(subs.subrange(0, subs.len() as int) =~= subs);
    }

    /// The number of committed newsletter issues.
    pub fn issue_count(&self) -> (r: usize)
        ensures
            r == self@.issues.len(),
    {
        self.issues.len()
    }

    /// The number of committed delivery-queue rows for issue `issue_id`.
    pub fn deliveries_for(&self, issue_id: u128) -> (r: usize)
        ensures
            r == rows_for(self@.queue, issue_id),
    {
        let ghost rows = self@.queue;
        let mut n: usize = 0;
        let mut i: usize = 0;
        while i < self.queue.len()
            invariant
                i <= rows.len(),
                rows == self@.queue,
                n == rows_for(rows.subrange(0, i as int), issue_id),
                n <= i,
            decreases rows.len() - i,
        {
            let ghost pre = rows.subrange(0, i + 1);
            assert(pre.drop_last() =~= rows.subrange(0, i as int));
            if self.queue[i].issue_id == issue_id {
                n = n + 1;
            }
            i = i + 1;
        }
        assert(rows.subrange(0, rows.len() as int) =~= rows);
        n
    }

    /// Whether an open transaction holds the claim on (caller, key).
    pub fn is_claim_held(&self, caller: u128, key: &String) -> (r: bool)
        ensures
            r == held(self@, caller, key@),
    {
        match self.find_in_flight(caller, key) {
            Some(_) => true,
            None => false,
        }
    }

    /// Whether a committed issue already has the identifier `id`.
    pub fn has_issue(&self, id: u128) -> (r: bool)
        ensures
            r == issue_id_taken(self@, id),
    {
        let mut i: usize = 0;
        while i < self.issues.len()
            invariant
                i <= self@.issues.len(),
                forall|j: int| 0 <= j < i ==> self@.issues[j].id != id,
            decreases self@.issues.len() - i,
        {
            if self.issues[i].id == id {
                assert(self@.issues[i as int].id == id);
                return true;
            }
            i = i + 1;
        }
        false
    }

    fn release(&mut self, caller: u128, key: &String)
        requires
            store_wf(old(self)@),
            held(old(self)@, caller, key@),
        ensures
            final(self)@ == (StoreView { in_flight: final(self)@.in_flight, ..old(self)@ }),
            released(old(self)@.in_flight, final(self)@.in_flight, (caller, key@)),
            forall|i: int, j: int|
                0 <= i < j < final(self)@.in_flight.len() ==> final(self)@.in_flight[i]
                    != final(self)@.in_flight[j],
            forall|q: (u128, Seq<char>)|
                #[trigger] final(self)@.in_flight.contains(q) ==> old(self)@.in_flight.contains(q),
    {
        let idx = self.find_in_flight(caller, key).unwrap();
        let ghost before = self@.in_flight;
        self.in_flight.remove(idx);
        assert(self@.in_flight =~= before.remove(idx as int));
        proof {
            lemma_remove_releases(before, idx as int);
        }
        assert(self@.claims =~= old(self)@.claims);
        assert(self@.issues =~= old(self)@.issues);
        assert(self@.queue =~= old(self)@.queue);
        assert(self@.subscribers =~= old(self)@.subscribers);
        assert(self@.tokens =~= old(self)@.tokens);
    }

    /// Saves `response` for the claim of `tx` as its last write, then commits
    /// `tx`: its issue and queue rows and the response appear together.
    /// Hands back the response as saved.
    pub fn save_response(&mut self, tx: Transaction, response: SavedResponse) -> (r:
        SavedResponse)
        requires
            store_wf(old(self)@),
            held(old(self)@, tx@.caller, tx@.key),
        ensures
            store_wf(final(self)@),
            commits(old(self)@, tx@, response@, final(self)@),
            r@ == response@,
    {
        let ghost txv = tx@;
        let Transaction { caller, key, mut issues, mut queue } = tx;
        self.release(caller, &key);
        let ghost mid = self@;
        let r = response.replay();
        self.claims.push(ClaimRow { caller, key, response });
        self.issues.append(&mut issues);
        self.queue.append(&mut queue);
        assert(self@.claims =~= mid.claims.push(
            ClaimView { caller: txv.caller, key: txv.key, response: r@ },
        ));
        assert(self@.issues =~= mid.issues + txv.issues);
        assert(self@.queue =~= mid.queue + txv.queue);
        assert(self@.in_flight =~= mid.in_flight);
        assert(self@.subscribers =~= mid.subscribers);
        assert(self@.tokens =~= mid.tokens);
        assert forall|i: int| 0 <= i < self@.in_flight.len() implies (saved_in(
            self@.claims,
            #[trigger] self@.in_flight[i].0,
            self@.in_flight[i].1,
        ) is None) by {
            let q = self@.in_flight[i];
            assert(self@.in_flight.contains(q));
            assert(old(self)@.in_flight.contains(q));
            let k = choose|k: int| 0 <= k < old(self)@.in_flight.len() && old(self)@.in_flight[k] == q;
            assert(saved_in(old(self)@.claims, old(self)@.in_flight[k].0, old(self)@.in_flight[k].1) is None);
            assert(q != (txv.caller, txv.key));
            assert(self@.claims.drop_last() =~= old(self)@.claims);
        }
        r
    }

    /// Rolls `tx` back: none of its writes appear and its claim is released,
    /// so the pair may be claimed again.
    pub fn rollback(&mut self, tx: Transaction)
        requires
            store_wf(old(self)@),
            held(old(self)@, tx@.caller, tx@.key),
        ensures
            store_wf(final(self)@),
            rolls_back(old(self)@, tx@, final(self)@),
    {
        self.release(tx.caller, &tx.key);
        assert forall|i: int| 0 <= i < self@.in_flight.len() implies (saved_in(
            self@.claims,
            #[trigger] self@.in_flight[i].0,
            self@.in_flight[i].1,
        ) is None) by {
            let q = self@.in_flight[i];
            assert(self@.in_flight.contains(q));
            let k = choose|k: int| 0 <= k < old(self)@.in_flight.len() && old(self)@.in_flight[k] == q;
            assert(saved_in(old(self)@.claims, old(self)@.in_flight[k].0, old(self)@.in_flight[k].1) is None);
        }
    }
}

impl Transaction {
    /// Records a newsletter issue inside the transaction.
    pub fn insert_newsletter_issue(
        &mut self,
        id: u128,
        title: &str,
        text_content: &str,
        html_content: &str,
        published_at: i64,
    )
        ensures
            final(self)@ == (TransactionView {
                issues: old(self)@.issues.push(
                    IssueView {
                        id,
                        title: title@,
                        text_content: text_content@,
                        html_content: html_content@,
                        published_at,
                    },
                ),
                ..old(self)@
            }),
    {
        let row = IssueRow {
            id,
            title: String::from_str(title),
            text_content: String::from_str(text_content),
            html_content: String::from_str(html_content),
            published_at,
        };
        self.issues.push(row);
        assert(self@.issues =~= old(self)@.issues.push(
            IssueView {
                id,
                title: title@,
                text_content: text_content@,
                html_content: html_content@,
                published_at,
            },
        ));
        assert(self@.queue =~= old(self)@.queue);
    }
}

/// Another transaction claimed the pair first.
#[derive(Debug, Clone, Copy, PartialEq, Eq, Structural)]
pub enum ClaimError {
    AlreadyClaimed,
}

} // verus!
