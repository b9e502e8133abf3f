//! What the IPC and WebSocket transports share: numbering requests, building
//! batches, and routing what the server sends to the request or subscription
//! that waits for it.
use vstd::prelude::*;
use std::collections::BTreeMap;
use crate::error::Error;
use crate::rpc::{
    Call, EntryValue, json_string_value, Request, RequestId, RpcId, RpcNotification, RpcOutput, RpcParams, build_request,
    entry_json, entry_to_json, json_text_of_request, output_result, request_to_json, to_results_from_outputs,
};

verus! {

broadcast use vstd::std_specs::btree::group_btree_axioms, vstd::laws_cmp::group_laws_cmp;

/// The id of a subscription, as the server names it.
#[derive(Debug)]
pub struct SubscriptionId(pub String);

/// The id after `id`, wrapping at the end of `usize` as an atomic counter does.
pub open spec fn next_id(id: usize) -> usize {
    if id == usize::MAX { 0 } else { (id + 1) as usize }
}

/// Hands out request ids in sequence.
#[derive(Debug)]
pub struct RequestIds {
    next: usize,
}

impl RequestIds {
    /// The id that the next request gets.
    pub closed spec fn spec_next(&self) -> usize {
        self.next
    }

    /// A counter whose first id is `first` (0 for IPC and HTTP, 1 for WebSocket).
    pub fn new(first: usize) -> (r: Self)
        ensures
            r.spec_next() == first,
    {
        RequestIds { next: first }
    }

    /// Takes the next id and builds the call for `method` with `params`.
    pub fn prepare(&mut self, method: &str, params: Vec<serde_json::Value>) -> (r: (RequestId, Call))
        ensures
            r.0 == old(self).spec_next(),
            final(self).spec_next() == next_id(old(self).spec_next()),
            r.1.jsonrpc == Some(crate::rpc::Version::V2),
            r.1.method@ == method@,
            r.1.params == params,
            r.1.id == r.0 as u64,
    {
        let id = self.next;
        self.next = if self.next == usize::MAX { 0 } else { self.next + 1 };
        (id, build_request(id, method, params))
    }
}

/// Turns prepared calls into one batch request: the batch takes the id of its
/// first call, or 0 when it is empty, and holds the calls in order.
pub fn send_batch(requests: Vec<(RequestId, Call)>) -> (r: (RequestId, Request))
    ensures
        r.0 == (if requests@.len() > 0 { requests@[0].0 } else { 0 }),
        r.1 matches Request::Batch(calls) && calls@ == requests@.map_values(|p: (RequestId, Call)| p.1),
{
    let ghost all = requests@;
    let mut id: RequestId = 0;
    let mut calls: Vec<Call> = Vec::new();
    for p in it: requests
        invariant
            it.seq() == all,
            calls@.len() == it.index(),
            forall|i: int| 0 <= i < it.index() ==> #[trigger] calls@[i] == all[i].1,
            id == (if it.index() > 0 { all[0].0 } else { 0 }),
    {
        if calls.len() == 0 {
            id = p.0;
        }
        calls.push(p.1);
    }
    assert(calls@ =~= all.map_values(|p: (RequestId, Call)| p.1));
    (id, Request::Batch(calls))
}

/// The answer to a single call: the first outcome of the response, or an error
/// when the response holds none.
pub fn single_response(response: Vec<Result<serde_json::Value, Error>>) -> (r: Result<serde_json::Value, Error>)
    ensures
        response@.len() > 0 ==> r == response@[0],
        response@.len() == 0 ==> (r matches Err(Error::InvalidResponse(m)) && m@ == "Expected single, got batch."@),
{
    let mut response = response;
    if response.len() > 0 {
        response.swap_remove(0)
    } else {
        Err(Error::InvalidResponse(String::from_str("Expected single, got batch.")))
    }
}

/// The id of the first output, or `Num(0)` when there is none.
pub open spec fn first_output_id(outputs: Seq<RpcOutput>) -> RpcId {
    if outputs.len() > 0 { outputs[0].id } else { RpcId::Num(0) }
}

/// Where a response goes.
#[derive(Debug)]
pub enum ResponseRoute<P> {
    /// To the request that waits for it, with the outcomes of its outputs.
    Deliver { request: P, results: Vec<Result<serde_json::Value, Error>> },
    /// No request waits under this id.
    UnknownRequest(u64),
    /// The id is not a number.
    UnsupportedId(RpcId),
}

/// Where a notification goes.
#[derive(Debug)]
pub enum NotificationRoute {
    /// To the subscription at this index, with the notification's result.
    Deliver { index: usize, value: serde_json::Value },
    /// No subscription has this id.
    UnknownSubscription(String),
    /// The parameters lack a string `subscription` or a `result`.
    Unsupported,
    /// The parameters are not a map.
    Ignored,
}

/// The index of the first entry with this key.
pub open spec fn key_index(entries: Seq<(String, EntryValue)>, key: Seq<char>) -> Option<int>
    decreases entries.len(),
{
    if entries.len() == 0 {
        None
    } else if entries.last().0@ == key && key_index(entries.drop_last(), key) is None {
        Some(entries.len() - 1)
    } else {
        key_index(entries.drop_last(), key)
    }
}

/// The value of the first entry with this key.
pub open spec fn lookup(entries: Seq<(String, EntryValue)>, key: Seq<char>) -> Option<EntryValue> {
    match key_index(entries, key) {
        Some(i) => Some(entries[i].1),
        None => None,
    }
}

/// `key_index` finds the first entry with the key.
proof fn lemma_key_index(entries: Seq<(String, EntryValue)>, key: Seq<char>)
    ensures
        match key_index(entries, key) {
            Some(i) => 0 <= i < entries.len() && entries[i].0@ == key
                && forall|j: int| 0 <= j < i ==> entries[j].0@ != key,
            None => forall|j: int| 0 <= j < entries.len() ==> entries[j].0@ != key,
        },
    decreases entries.len(),
{
    if entries.len() > 0 {
        let init = entries.drop_last();
        lemma_key_index(init, key);
        assert(forall|j: int| 0 <= j < init.len() ==> init[j] == entries[j]);
    }
}

/// Finds the index of the first entry with this key.
fn find_key(entries: &Vec<(String, EntryValue)>, key: &String) -> (r: Option<usize>)
    ensures
        match r {
            Some(i) => key_index(entries@, key@) == Some(i as int),
            None => key_index(entries@, key@) is None,
        },
{
    proof {
        lemma_key_index(entries@, key@);
    }
    let mut i: usize = 0;
    while i < entries.len()
        invariant
            i <= entries@.len(),
            forall|j: int| 0 <= j < i ==> entries@[j].0@ != key@,
            match key_index(entries@, key@) {
                Some(k) => 0 <= k < entries@.len() && entries@[k].0@ == key@
                    && forall|j: int| 0 <= j < k ==> entries@[j].0@ != key@,
                None => forall|j: int| 0 <= j < entries@.len() ==> entries@[j].0@ != key@,
            },
        decreases entries@.len() - i,
    {
        if entries[i].0 == *key {
            return Some(i);
        }
        i = i + 1;
    }
    None
}

/// The keys of the subscriptions are distinct.
pub open spec fn distinct_keys<S>(subs: Seq<(String, S)>) -> bool {
    forall|i: int, j: int| 0 <= i < subs.len() && 0 <= j < subs.len() && i != j ==> subs[i].0@ != subs[j].0@
}

/// Whether a subscription has this id.
pub open spec fn has_key<S>(subs: Seq<(String, S)>, key: Seq<char>) -> bool {
    exists|i: int| 0 <= i < subs.len() && #[trigger] subs[i].0@ == key
}

/// The subscriptions as a map from id to sender.
pub open spec fn subs_map<S>(subs: Seq<(String, S)>) -> Map<Seq<char>, S> {
    Map::new(
        |k: Seq<char>| has_key(subs, k),
        |k: Seq<char>| subs[choose|i: int| 0 <= i < subs.len() && #[trigger] subs[i].0@ == k].1,
    )
}


/// Replacing the sender of an existing subscription keeps the ids distinct and
/// updates the map.
proof fn lemma_subs_update<S>(subs: Seq<(String, S)>, i: int, e: (String, S))
    requires
        distinct_keys(subs),
        0 <= i < subs.len(),
        subs[i].0@ == e.0@,
    ensures
        distinct_keys(subs.update(i, e)),
        subs_map(subs.update(i, e)) == subs_map(subs).insert(e.0@, e.1),
{
    let new = subs.update(i, e);
    assert forall|k: Seq<char>| has_key(new, k) == (has_key(subs, k) || k == e.0@) by {
        if has_key(subs, k) {
            let j = choose|j: int| 0 <= j < subs.len() && #[trigger] subs[j].0@ == k;
            assert(new[j].0@ == k);
        }
        if k == e.0@ {
            assert(new[i].0@ == k);
        }
        if has_key(new, k) {
            let j = choose|j: int| 0 <= j < new.len() && #[trigger] new[j].0@ == k;
            if j != i {
                assert(subs[j].0@ == k);
            }
        }
    }
    assert forall|k: Seq<char>| #[trigger] has_key(new, k) implies subs_map(new)[k] == subs_map(subs).insert(e.0@, e.1)[k] by {
        let j = choose|j: int| 0 <= j < new.len() && #[trigger] new[j].0@ == k;
        if k == e.0@ {
            assert(j == i);
        } else {
            assert(subs[j].0@ == k);
            let j2 = choose|j2: int| 0 <= j2 < subs.len() && #[trigger] subs[j2].0@ == k;
            assert(j2 == j);
        }
    }
    assert(subs_map(new) =~= subs_map(subs).insert(e.0@, e.1));
}

/// Adding a subscription with a new id keeps the ids distinct and extends the map.
proof fn lemma_subs_push<S>(subs: Seq<(String, S)>, e: (String, S))
    requires
        distinct_keys(subs),
        !has_key(subs, e.0@),
    ensures
        distinct_keys(subs.push(e)),
        subs_map(subs.push(e)) == subs_map(subs).insert(e.0@, e.1),
{
    let new = subs.push(e);
    let n = subs.len() as int;
    assert forall|i: int, j: int| 0 <= i < new.len() && 0 <= j < new.len() && i != j implies new[i].0@ != new[j].0@ by {
        if i == n {
            assert(subs[j].0@ == new[j].0@);
        } else if j == n {
            assert(subs[i].0@ == new[i].0@);
        }
    }
    assert forall|k: Seq<char>| has_key(new, k) == (has_key(subs, k) || k == e.0@) by {
        if has_key(subs, k) {
            let j = choose|j: int| 0 <= j < subs.len() && #[trigger] subs[j].0@ == k;
            assert(new[j].0@ == k);
        }
        if k == e.0@ {
            assert(new[n].0@ == k);
        }
        if has_key(new, k) {
            let j = choose|j: int| 0 <= j < new.len() && #[trigger] new[j].0@ == k;
            if j != n {
                assert(subs[j].0@ == k);
            }
        }
    }
    assert forall|k: Seq<char>| #[trigger] has_key(new, k) implies subs_map(new)[k] == subs_map(subs).insert(e.0@, e.1)[k] by {
        let j = choose|j: int| 0 <= j < new.len() && #[trigger] new[j].0@ == k;
        if k == e.0@ {
            if j != n {
                assert(subs[j].0@ == k);
            }
        } else {
            assert(subs[j].0@ == k);
            let j2 = choose|j2: int| 0 <= j2 < subs.len() && #[trigger] subs[j2].0@ == k;
            assert(j2 == j);
        }
    }
    assert(subs_map(new) =~= subs_map(subs).insert(e.0@, e.1));
}

/// Removing the subscription with an id keeps the ids distinct and removes it from the map.
proof fn lemma_subs_remove<S>(subs: Seq<(String, S)>, i: int)
    requires
        distinct_keys(subs),
        0 <= i < subs.len(),
    ensures
        distinct_keys(subs.remove(i)),
        subs_map(subs.remove(i)) == subs_map(subs).remove(subs[i].0@),
{
    let new = subs.remove(i);
    let key = subs[i].0@;
    // positions of `new` map back into `subs`
    assert forall|j: int| 0 <= j < new.len() implies #[trigger] new[j] == subs[if j < i { j } else { j + 1 }] by {}
    assert forall|a: int, b: int| 0 <= a < new.len() && 0 <= b < new.len() && a != b implies new[a].0@ != new[b].0@ by {
        let a2 = if a < i { a } else { a + 1 };
        let b2 = if b < i { b } else { b + 1 };
        assert(new[a] == subs[a2]);
        assert(new[b] == subs[b2]);
    }
    assert forall|k: Seq<char>| has_key(new, k) == (has_key(subs, k) && k != key) by {
        if has_key(new, k) {
            let j = choose|j: int| 0 <= j < new.len() && #[trigger] new[j].0@ == k;
            let j2 = if j < i { j } else { j + 1 };
            assert(new[j] == subs[j2]);
            assert(subs[j2].0@ == k);
        }
        if has_key(subs, k) && k != key {
            let j = choose|j: int| 0 <= j < subs.len() && #[trigger] subs[j].0@ == k;
            let j2 = if j < i { j } else { j - 1 };
            assert(new[j2] == subs[j]);
            assert(new[j2].0@ == k);
        }
    }
    assert forall|k: Seq<char>| #[trigger] has_key(new, k) implies subs_map(new)[k] == subs_map(subs).remove(key)[k] by {
        let j = choose|j: int| 0 <= j < new.len() && #[trigger] new[j].0@ == k;
        let j2 = if j < i { j } else { j + 1 };
        assert(new[j] == subs[j2]);
        assert(subs[j2].0@ == k);
        let j3 = choose|j3: int| 0 <= j3 < subs.len() && #[trigger] subs[j3].0@ == k;
        assert(j3 == j2);
    }
    assert(subs_map(new) =~= subs_map(subs).remove(key));
}

/// The index of the subscription with this id, if any.
fn find_subscription<S>(subs: &Vec<(String, S)>, key: &String) -> (r: Option<usize>)
    ensures
        match r {
            Some(i) => i < subs@.len() && subs@[i as int].0@ == key@,
            None => !has_key(subs@, key@),
        },
{
    let mut i: usize = 0;
    while i < subs.len()
        invariant
            i <= subs@.len(),
            forall|j: int| 0 <= j < i ==> #[trigger] subs@[j].0@ != key@,
        decreases subs@.len() - i,
    {
        if subs[i].0 == *key {
            return Some(i);
        }
        i = i + 1;
    }
    None
}

/// The requests that wait for an answer and the subscriptions that wait for
/// notifications, each under its id.
pub struct Dispatcher<P, S> {
    pending: BTreeMap<RequestId, P>,
    subscriptions: Vec<(String, S)>,
}

impl<P, S> Dispatcher<P, S> {
    /// The waiting requests by id.
    pub closed spec fn pending(&self) -> Map<RequestId, P> {
        self.pending@
    }

    /// The subscriptions by id.
    pub closed spec fn subscriptions(&self) -> Map<Seq<char>, S> {
        subs_map(self.subscriptions@)
    }

    /// The subscriptions in the order they were made.
    pub closed spec fn subscription_list(&self) -> Seq<(String, S)> {
        self.subscriptions@
    }

    /// How `respond` routes `outputs`, leaving the dispatcher as `post`.
    pub open spec fn spec_respond(self, outputs: Seq<RpcOutput>, r: ResponseRoute<P>, post: Self) -> bool {
        &&& post.wf()
        &&& post.subscription_list() == self.subscription_list()
        &&& match first_output_id(outputs) {
            RpcId::Num(n) => if self.pending().contains_key(n as usize) {
                &&& r matches ResponseRoute::Deliver { request, results }
                &&& request == self.pending()[n as usize]
                &&& results@ == outputs.map_values(|o: RpcOutput| output_result(o))
                &&& post.pending() == self.pending().remove(n as usize)
            } else {
                &&& r == ResponseRoute::<P>::UnknownRequest(n)
                &&& post.pending() == self.pending()
            },
            id => r == ResponseRoute::<P>::UnsupportedId(id) && post.pending() == self.pending(),
        }
    }

    /// How `route_notification` routes a notification.
    pub open spec fn spec_route_notification(self, notification: RpcNotification, r: NotificationRoute) -> bool {
        match notification.params {
            RpcParams::Object(entries) => {
                let id = lookup(entries@, "subscription"@);
                let result = lookup(entries@, "result"@);
                match id {
                    Some(EntryValue::Str(key)) => if result is Some {
                        if self.subscriptions().contains_key(key@) {
                            &&& r matches NotificationRoute::Deliver { index, value }
                            &&& index < self.subscription_list().len()
                            &&& self.subscription_list()[index as int].0@ == key@
                            &&& value == entry_json(result.unwrap())
                        } else {
                            r matches NotificationRoute::UnknownSubscription(k) && k@ == key@
                        }
                    } else {
                        r is Unsupported
                    },
                    _ => r is Unsupported,
                }
            },
            _ => r is Ignored,
        }
    }

    /// No two subscriptions share an id.
    pub closed spec fn wf(&self) -> bool {
        distinct_keys(self.subscriptions@)
    }

    /// Nothing waits.
    pub fn new() -> (d: Self)
        ensures
            d.wf(),
            d.pending() == Map::<RequestId, P>::empty(),
            d.subscriptions() == Map::<Seq<char>, S>::empty(),
    {
        let d = Dispatcher { pending: BTreeMap::new(), subscriptions: Vec::new() };
        assert(d.subscriptions() =~= Map::<Seq<char>, S>::empty());
        d
    }

    /// Registers `tx` as waiting for the answer to request `id` (replacing any
    /// earlier one under that id) and gives the request's JSON text to send.
    pub fn send_request(&mut self, id: RequestId, request: &Request, tx: P) -> (text: String)
        requires
            old(self).wf(),
        ensures
            final(self).wf(),
            final(self).pending() == old(self).pending().insert(id, tx),
            final(self).subscription_list() == old(self).subscription_list(),
            text@ == json_text_of_request(*request),
    {
        let text = request_to_json(request);
        self.pending.insert(id, tx);
        text
    }

    /// Subscribes `tx` to the notifications of subscription `id`; an earlier
    /// subscriber under the same id is replaced, and then `true` is returned.
    pub fn subscribe(&mut self, id: &SubscriptionId, tx: S) -> (replaced: bool)
        requires
            old(self).wf(),
        ensures
            final(self).wf(),
            replaced == old(self).subscriptions().contains_key(id.0@),
            final(self).subscriptions() == old(self).subscriptions().insert(id.0@, tx),
            final(self).pending() == old(self).pending(),
    {
        let key = id.0.clone();
        match find_subscription(&self.subscriptions, &key) {
            Some(i) => {
                proof {
                    lemma_subs_update(self.subscriptions@, i as int, (key, tx));
                    assert(has_key(self.subscriptions@, key@));
                }
                self.subscriptions.set(i, (key, tx));
                true
            },
            None => {
                proof {
                    lemma_subs_push(self.subscriptions@, (key, tx));
                }
                self.subscriptions.push((key, tx));
                false
            },
        }
    }

    /// Ends subscription `id`.
    pub fn unsubscribe(&mut self, id: &SubscriptionId)
        requires
            old(self).wf(),
        ensures
            final(self).wf(),
            final(self).subscriptions() == old(self).subscriptions().remove(id.0@),
            final(self).pending() == old(self).pending(),
    {
        match find_subscription(&self.subscriptions, &id.0) {
            Some(i) => {
                proof {
                    lemma_subs_remove(self.subscriptions@, i as int);
                }
                self.subscriptions.remove(i);
            },
            None => {
                assert(old(self).subscriptions() =~= old(self).subscriptions().remove(id.0@));
            },
        }
    }

    /// The sender of the subscription at `index`.
    pub fn subscriber(&self, index: usize) -> (s: &S)
        requires
            index < self.subscription_list().len(),
        ensures
            *s == self.subscription_list()[index as int].1,
    {
        &self.subscriptions[index].1
    }

    /// Routes the outputs of a response: the id of the first output (0 when
    /// there is none) picks the waiting request, which stops waiting and gets
    /// the outcomes of all the outputs.
    pub fn respond(&mut self, outputs: Vec<RpcOutput>) -> (r: ResponseRoute<P>)
        requires
            old(self).wf(),
        ensures
            final(self).wf(),
            old(self).spec_respond(outputs@, r, *final(self)),
    {
        let num = if outputs.len() == 0 {
            Some(0u64)
        } else {
            match &outputs[0].id {
                RpcId::Num(n) => Some(*n),
                _ => None,
            }
        };
        match num {
            Some(n) => {
                let key = #[verifier::truncate] (n as usize);
                match self.pending.remove(&key) {
                    Some(request) => ResponseRoute::Deliver { request, results: to_results_from_outputs(outputs) },
                    None => {
                        assert(old(self).pending@.remove(key) =~= old(self).pending@);
                        ResponseRoute::UnknownRequest(n)
                    },
                }
            },
            None => {
                let mut outputs = outputs;
                let first = outputs.swap_remove(0);
                ResponseRoute::UnsupportedId(first.id)
            },
        }
    }

    /// Routes a notification: its parameters must be a map with a string
    /// `subscription` and a `result`; the result goes to that subscription.
    pub fn route_notification(&self, notification: RpcNotification) -> (r: NotificationRoute)
        requires
            self.wf(),
        ensures
            self.spec_route_notification(notification, r),
    {
        match notification.params {
            RpcParams::Object(entries) => {
                let subscription = String::from_str("subscription");
                let result = String::from_str("result");
                let si = find_key(&entries, &subscription);
                let ri = find_key(&entries, &result);
                proof {
                    lemma_key_index(entries@, subscription@);
                    lemma_key_index(entries@, result@);
                }
                match (si, ri) {
                    (Some(si), Some(ri)) => {
                        let key = match &entries[si].1 {
                            EntryValue::Str(key) => key.clone(),
                            EntryValue::Other(_) => return NotificationRoute::Unsupported,
                        };
                        match find_subscription(&self.subscriptions, &key) {
                            Some(index) => {
                                let mut entries = entries;
                                let value = entry_to_json(entries.swap_remove(ri).1);
                                NotificationRoute::Deliver { index, value }
                            },
                            None => NotificationRoute::UnknownSubscription(key),
                        }
                    },
                    _ => NotificationRoute::Unsupported,
                }
            },
            _ => NotificationRoute::Ignored,
        }
    }
}

/// The id that a counter starting at `first` gives on its `n`-th call (from 0).
pub open spec fn nth_id(first: usize, n: nat) -> usize {
    ((first + n) % (usize::MAX as int + 1)) as usize
}

/// Successive calls of `prepare` hand out successive ids, wrapping at the end of
/// `usize`: the call after the `n`-th gets `nth_id(first, n + 1)`, and no two of
/// any `usize::MAX + 1` successive calls get the same id.
pub proof fn law_ids_are_sequential(first: usize, n: nat, m: nat)
    ensures
        next_id(nth_id(first, n)) == nth_id(first, n + 1),
        nth_id(first, 0) == first,
        n < m <= usize::MAX ==> nth_id(first, n) != nth_id(first, m),
{
    let b = usize::MAX as int + 1;
    let x = first + n;
    assert(x % b + 1 == b ==> (x + 1) % b == 0) by (nonlinear_arith)
        requires b > 0, x >= 0;
    assert(x % b + 1 < b ==> (x + 1) % b == x % b + 1) by (nonlinear_arith)
        requires b > 0, x >= 0;
    assert(0 <= x % b < b) by (nonlinear_arith)
        requires b > 0;
    assert((first as int) % b == first as int) by (nonlinear_arith)
        requires b > 0, 0 <= first < b;
    if n < m <= usize::MAX {
        let y = first + m;
        assert(x % b != y % b) by (nonlinear_arith)
            requires b > 0, 0 <= x < y, y - x < b;
    }
}

/// An answer reaches the request that waits under its id, and only once: the
/// request stops waiting, so a second answer with the same id finds none.
pub proof fn law_answer_reaches_its_request_once<P, S>(
    before: Dispatcher<P, S>,
    id: RequestId,
    outputs: Seq<RpcOutput>,
    r: ResponseRoute<P>,
    after: Dispatcher<P, S>,
    outputs2: Seq<RpcOutput>,
    r2: ResponseRoute<P>,
    after2: Dispatcher<P, S>,
)
    requires
        before.pending().contains_key(id),
        first_output_id(outputs) == RpcId::Num(id as u64),
        before.spec_respond(outputs, r, after),
        first_output_id(outputs2) == RpcId::Num(id as u64),
        after.spec_respond(outputs2, r2, after2),
    ensures
        r matches ResponseRoute::Deliver { request, results } && request == before.pending()[id],
        !after.pending().contains_key(id),
        r2 == ResponseRoute::<P>::UnknownRequest(id as u64),
{
    assert((id as u64) as usize == id);
}

/// A notification for a subscription goes to the sender that subscribed under
/// its id.
pub proof fn law_notification_reaches_its_subscriber<P, S>(
    d: Dispatcher<P, S>,
    notification: RpcNotification,
    r: NotificationRoute,
    key: Seq<char>,
)
    requires
        d.wf(),
        d.spec_route_notification(notification, r),
        r matches NotificationRoute::Deliver { index, value } && d.subscription_list()[index as int].0@ == key,
    ensures
        r matches NotificationRoute::Deliver { index, value }
            && d.subscriptions().contains_key(key)
            && d.subscription_list()[index as int].1 == d.subscriptions()[key],
{
    let subs = d.subscription_list();
    if let NotificationRoute::Deliver { index, value } = r {
        assert(index < subs.len()) by {
            match notification.params {
                RpcParams::Object(entries) => {},
                _ => {},
            }
        }
        assert(subs[index as int].0@ == key);
        assert(has_key(subs, key));
        let j = choose|j: int| 0 <= j < subs.len() && #[trigger] subs[j].0@ == key;
        assert(j == index);
    }
}

/// The answer to a batch goes to the request that waits under the id of its
/// first output, whatever ids the later outputs carry: the request gets the
/// outcomes of all the outputs, in order (a value as it came, an error object
/// as an RPC error), and stops waiting; no other request changes.
pub proof fn law_batch_answer_reaches_its_request<P, S>(
    d: Dispatcher<P, S>,
    outputs: Seq<RpcOutput>,
    n: u64,
    r: ResponseRoute<P>,
    post: Dispatcher<P, S>,
)
    requires
        d.spec_respond(outputs, r, post),
        outputs.len() > 0,
        outputs[0].id == RpcId::Num(n),
        d.pending().contains_key(n as usize),
    ensures
        r matches ResponseRoute::Deliver { request, results } && {
            &&& request == d.pending()[n as usize]
            &&& results@.len() == outputs.len()
            &&& forall|i: int| 0 <= i < outputs.len() ==> #[trigger] results@[i] == match outputs[i].result {
                Ok(v) => Ok::<serde_json::Value, Error>(v),
                Err(e) => Err::<serde_json::Value, Error>(Error::Rpc(e)),
            }
        },
        !post.pending().contains_key(n as usize),
        forall|k: RequestId| k != n as usize ==> (#[trigger] post.pending().contains_key(k)) == d.pending().contains_key(k),
{
    if let ResponseRoute::Deliver { request, results } = r {
        assert forall|i: int| 0 <= i < outputs.len() implies #[trigger] results@[i] == match outputs[i].result {
            Ok(v) => Ok::<serde_json::Value, Error>(v),
            Err(e) => Err::<serde_json::Value, Error>(Error::Rpc(e)),
        } by {
            assert(results@[i] == output_result(outputs[i]));
        }
    }
}

/// A notification reaches the subscriber named by its `subscription` string,
/// whatever JSON value its `result` holds, a string included: the value
/// delivered is that result.
pub proof fn law_notification_delivers_any_result<P, S>(
    d: Dispatcher<P, S>,
    notification: RpcNotification,
    r: NotificationRoute,
    entries: Seq<(String, EntryValue)>,
    i: int,
    j: int,
    key: Seq<char>,
)
    requires
        d.wf(),
        d.spec_route_notification(notification, r),
        notification.params matches RpcParams::Object(e) && e@ == entries,
        0 <= i < entries.len(),
        entries[i].0@ == "subscription"@,
        forall|k: int| 0 <= k < i ==> (#[trigger] entries[k]).0@ != "subscription"@,
        entries[i].1 matches EntryValue::Str(s) && s@ == key,
        d.subscriptions().contains_key(key),
        0 <= j < entries.len(),
        entries[j].0@ == "result"@,
        forall|k: int| 0 <= k < j ==> (#[trigger] entries[k]).0@ != "result"@,
    ensures
        r matches NotificationRoute::Deliver { index, value } && {
            &&& index < d.subscription_list().len()
            &&& d.subscription_list()[index as int].0@ == key
            &&& match entries[j].1 {
                EntryValue::Str(s) => value == json_string_value(s@),
                EntryValue::Other(v) => value == v,
            }
        },
{
    lemma_key_index(entries, "subscription"@);
    lemma_key_index(entries, "result"@);
    assert(key_index(entries, "subscription"@) == Some(i));
    assert(key_index(entries, "result"@) == Some(j));
}

} // verus!
