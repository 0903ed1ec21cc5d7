use vstd::prelude::*;
use crate::aspect_map::new_aspects;
use crate::aspect_map::pair_views;
use crate::aspect_map::AspectAddressMap;
use crate::error::BbDhtError;
use crate::protocol::ClientToLib3hResponse;
use crate::protocol::DirectMessageData;
use crate::protocol::EntryAspectData;
use crate::protocol::GetListData;
use crate::protocol::Lib3hToClient;
use crate::protocol::ProvidedEntryData;
use crate::protocol::StoreEntryAspectData;
use crate::schema::copy_item;
use crate::schema::item_view;
use crate::schema::AttributeView;
use crate::schema::Item;

verus! {

/// The shortest time, in milliseconds, between two ticks that do work.
pub const MIN_TOLERABLE_TICK_INTERVAL_MS: u128 = 80;

/// The state of one agent in one space: what it has asked its client for,
/// what it has to tell it, and which entry aspects it holds.
#[derive(Debug)]
pub struct Sim1hState {
    pub initialized: bool,
    pub space_address: String,
    pub agent_id: String,
    pub client_request_outbox: Vec<Lib3hToClient>,
    pub client_response_outbox: Vec<ClientToLib3hResponse>,
    pub held_aspects: AspectAddressMap,
    pub num_ticks: u32,
    pub last_tick_nanos: Option<u128>,
    pub last_evaluated_scan_key: Option<Item>,
}

/// The item under which a scan of the space's table goes on, as names and
/// values.
pub open spec fn scan_key_view(key: Option<Item>) -> Option<Seq<(Seq<char>, AttributeView)>> {
    match key {
        Some(item) => Some(item_view(item@)),
        None => None,
    }
}

/// The whole milliseconds from `then` to `now`, both in nanoseconds; none if
/// `now` is earlier.
pub open spec fn elapsed_ms(then: u128, now: u128) -> int {
    if now >= then {
        (now - then) / 1_000_000
    } else {
        0
    }
}

/// Whether a tick at `now` comes too soon after the last tick that did work.
pub open spec fn throttled(last_tick: Option<u128>, now: u128) -> bool {
    match last_tick {
        Some(then) => elapsed_ms(then, now) < MIN_TOLERABLE_TICK_INTERVAL_MS,
        None => false,
    }
}

/// A request for an entry list of the agent `agent` in the space `space`,
/// with an empty request id.
pub open spec fn is_get_list(d: GetListData, space: Seq<char>, agent: Seq<char>) -> bool {
    &&& d.space_address@ == space
    &&& d.provider_agent_id@ == agent
    &&& d.request_id@ == Seq::<char>::empty()
}

/// The requests for the authoring list and then the gossiping list of the
/// agent `agent` in the space `space`.
pub open spec fn authoring_gossip_requests(r: Seq<Lib3hToClient>, space: Seq<char>, agent: Seq<char>) -> bool {
    &&& r.len() == 2
    &&& r[0] matches Lib3hToClient::HandleGetAuthoringEntryList(d) && is_get_list(d, space, agent)
    &&& r[1] matches Lib3hToClient::HandleGetGossipingEntryList(d) && is_get_list(d, space, agent)
}

/// An aspect that the space's table holds, with the 16 random bytes from
/// which the id of the request to store it is built.
#[derive(Debug, Clone)]
pub struct FetchedAspect {
    pub aspect: EntryAspectData,
    pub random_bytes: [u8; 16],
}

/// The hyphenated text of the version-4 UUID that `uuid` builds from 16
/// random bytes.
pub uninterp spec fn v4_uuid_text(bytes: Seq<u8>) -> Seq<char>;

/// `uuid::Builder::from_bytes` of the bytes, with the RFC 4122 variant and
/// the random version set, as text (`Uuid`'s `Display`, the hyphenated
/// form): what `Uuid::new_v4` builds from the bytes that it draws. The result
/// is `v4_uuid_text` of the bytes; nothing here draws randomness or panics.
#[verifier::external_body]
fn v4_request_id(bytes: [u8; 16]) -> (r: String)
    ensures
        r@ == v4_uuid_text(bytes@),
{
    uuid::Builder::from_bytes(bytes).set_variant(uuid::Variant::RFC4122).set_version(uuid::Version::Random).build().to_string()
}

/// A request to store the fetched aspect of the entry `entry`, from the agent
/// `agent` in the space `space`, under the UUID built from the fetched
/// aspect's random bytes.
pub open spec fn is_store_request(
    m: Lib3hToClient,
    space: Seq<char>,
    agent: Seq<char>,
    entry: Seq<char>,
    fetched: FetchedAspect,
) -> bool {
    &&& m matches Lib3hToClient::HandleStoreEntryAspect(d)
    &&& d.request_id@ == v4_uuid_text(fetched.random_bytes@)
    &&& d.space_address@ == space
    &&& d.provider_agent_id@ == agent
    &&& d.entry_address@ == entry
    &&& d.entry_aspect == fetched.aspect
}

/// The entry addresses of `pending` paired with the aspects that were found
/// for them, in order; those not found are left out.
pub open spec fn found_aspects(
    pending: Seq<(String, String)>,
    fetched: Seq<Option<FetchedAspect>>,
) -> Seq<(Seq<char>, FetchedAspect)>
    decreases fetched.len(),
{
    if fetched.len() == 0 {
        Seq::empty()
    } else {
        let rest = found_aspects(pending, fetched.drop_last());
        match fetched.last() {
            Some(a) => rest.push((pending[fetched.len() - 1].0@, a)),
            None => rest,
        }
    }
}

/// `r` asks the client to store each found aspect, in order.
pub open spec fn store_requests_for(
    r: Seq<Lib3hToClient>,
    space: Seq<char>,
    agent: Seq<char>,
    found: Seq<(Seq<char>, FetchedAspect)>,
) -> bool {
    &&& r.len() == found.len()
    &&& forall|k: int| 0 <= k < r.len() ==> is_store_request(#[trigger] r[k], space, agent, found[k].0, found[k].1)
}

/// The request that hands a direct message to the client: the result of a
/// message it sent, or a message for it to handle.
pub open spec fn direct_message_request(message: DirectMessageData, is_response: bool) -> Lib3hToClient {
    if is_response {
        Lib3hToClient::SendDirectMessageResult(message)
    } else {
        Lib3hToClient::HandleSendDirectMessage(message)
    }
}

/// The requests for the messages that an inbox check found; none if the
/// check failed.
pub open spec fn direct_message_requests(inbox: Result<Vec<(DirectMessageData, bool)>, BbDhtError>) -> Seq<Lib3hToClient> {
    match inbox {
        Ok(messages) => messages@.map_values(|m: (DirectMessageData, bool)| direct_message_request(m.0, m.1)),
        Err(_) => Seq::empty(),
    }
}

/// The authoring and gossiping lists are asked for on the first tick that
/// reads the clock, and on no later one.
pub proof fn lemma_authoring_asked_once(
    s0: Sim1hState,
    s1: Sim1hState,
    s2: Sim1hState,
    t1: RequestsTick,
    t2: RequestsTick,
    a1: TickAction,
    a2: TickAction,
    n1: u128,
    n2: u128,
)
    requires
        Sim1hState::after_clock(s0, s1, t1, a1, n1),
        Sim1hState::after_clock(s1, s2, t2, a2, n2),
    ensures
        s1.initialized,
        !throttled(s1.last_tick(), n2) ==> t2.messages().len() == 0,
{
}

/// A tick that reads the clock less than `MIN_TOLERABLE_TICK_INTERVAL_MS`
/// after a tick that did work ends at once with no requests, and is not
/// counted.
pub proof fn lemma_tick_throttled(
    s0: Sim1hState,
    s1: Sim1hState,
    s2: Sim1hState,
    t1: RequestsTick,
    t2: RequestsTick,
    a1: TickAction,
    a2: TickAction,
    n1: u128,
    n2: u128,
)
    requires
        Sim1hState::after_clock(s0, s1, t1, a1, n1),
        !throttled(s0.last_tick(), n1),
        Sim1hState::after_clock(s1, s2, t2, a2, n2),
        elapsed_ms(n1, n2) < MIN_TOLERABLE_TICK_INTERVAL_MS,
    ensures
        a2 matches TickAction::Finished(Ok(r)) && r@.len() == 0,
        s2.tick_count() == s1.tick_count(),
        s2.last_tick() == Some(n1),
{
}

/// The requests of a whole tick that does work: the authoring and gossiping
/// lists on the first tick, then a store request for each newly found aspect
/// that the table holds, then one request per direct message in the inbox,
/// then the requests that waited in the outbox.
pub proof fn lemma_tick_requests(
    s0: Sim1hState,
    s1: Sim1hState,
    s2: Sim1hState,
    s3: Sim1hState,
    s4: Sim1hState,
    t1: RequestsTick,
    t2: RequestsTick,
    t3: RequestsTick,
    t4: RequestsTick,
    a1: TickAction,
    a2: TickAction,
    a3: TickAction,
    a4: TickAction,
    now: u128,
    incoming: AspectAddressMap,
    key: Option<Item>,
    fetched: Seq<Option<FetchedAspect>>,
    inbox: Result<Vec<(DirectMessageData, bool)>, BbDhtError>,
)
    requires
        Sim1hState::after_clock(s0, s1, t1, a1, now),
        !throttled(s0.last_tick(), now),
        Sim1hState::after_scan(s1, s2, t1, t2, a2, Ok((incoming, key))),
        Sim1hState::after_aspects(s2, s3, t2, t3, a3, fetched),
        Sim1hState::after_inbox(s3, s4, t3, t4, a4, inbox),
    ensures
        a4 matches TickAction::Finished(Ok(r)) && {
            let first = t1.messages();
            let stores = r@.subrange(first.len() as int, r@.len() - direct_message_requests(inbox).len()
                - s0.client_request_outbox@.len());
            &&& r@.len() >= first.len() + direct_message_requests(inbox).len() + s0.client_request_outbox@.len()
            &&& r@.take(first.len() as int) == first
            &&& (if s0.initialized {
                first.len() == 0
            } else {
                authoring_gossip_requests(first, s0.space_address@, s0.agent_id@)
            })
            &&& store_requests_for(stores, s0.space_address@, s0.agent_id@, found_aspects(t2.pending(), fetched))
            &&& r@.skip(r@.len() - direct_message_requests(inbox).len() - s0.client_request_outbox@.len())
                == direct_message_requests(inbox) + s0.client_request_outbox@
        },
        s4.client_request_outbox@.len() == 0,
        s4.held_aspects@ == s0.held_aspects@.union_prefer_right(incoming@),
        a4 matches TickAction::Finished(Ok(r)) && outbox_step(s0, s4, Some(r@)),
{
    let first = t1.messages();
    let m3 = t3.messages();
    let n = first.len();
    let d = direct_message_requests(inbox);
    let o = s0.client_request_outbox@;
    assert(s3.client_request_outbox == s0.client_request_outbox);
    if let TickAction::Finished(Ok(r)) = a4 {
        assert(r@ == m3 + d + o);
        assert(m3.take(n as int) == first);
        assert(r@.take(n as int) =~= first);
        assert(r@.subrange(n as int, r@.len() - d.len() - o.len()) =~= m3.skip(n as int));
        assert(r@.skip(r@.len() - d.len() - o.len()) =~= d + o);
        assert(r@.skip(r@.len() - o.len()) =~= o);
    }
}

/// How a finished tick dealt with the request outbox: a tick that delivered
/// nothing kept it; a tick that delivered requests ended them with the
/// outbox's requests, in order, and left it empty.
pub open spec fn outbox_step(before: Sim1hState, after: Sim1hState, delivered: Option<Seq<Lib3hToClient>>) -> bool {
    match delivered {
        None => after.client_request_outbox@ == before.client_request_outbox@,
        Some(r) => {
            &&& r.len() >= before.client_request_outbox@.len()
            &&& r.skip(r.len() - before.client_request_outbox@.len()) == before.client_request_outbox@
            &&& after.client_request_outbox@.len() == 0
        },
    }
}

/// A tick that comes too soon delivers nothing and keeps the outbox.
pub proof fn lemma_throttled_tick_keeps_outbox(
    s0: Sim1hState,
    s1: Sim1hState,
    t1: RequestsTick,
    a1: TickAction,
    now: u128,
)
    requires
        Sim1hState::after_clock(s0, s1, t1, a1, now),
        throttled(s0.last_tick(), now),
    ensures
        outbox_step(s0, s1, None),
        a1 matches TickAction::Finished(Ok(r)) && r@.len() == 0,
{
}

/// A tick whose scan fails delivers nothing and keeps the outbox.
pub proof fn lemma_failed_tick_keeps_outbox(
    s0: Sim1hState,
    s1: Sim1hState,
    s2: Sim1hState,
    t1: RequestsTick,
    t2: RequestsTick,
    a1: TickAction,
    a2: TickAction,
    now: u128,
    e: BbDhtError,
)
    requires
        Sim1hState::after_clock(s0, s1, t1, a1, now),
        Sim1hState::after_scan(s1, s2, t1, t2, a2, Err(e)),
    ensures
        outbox_step(s0, s2, None),
        a2 is Finished,
{
}

/// The requests pushed to the outbox between ticks, in order: those pushed
/// after each of the first `n` ticks.
pub open spec fn pushed(pushes: Seq<Seq<Lib3hToClient>>, n: int) -> Seq<Lib3hToClient>
    decreases n,
{
    if n <= 0 {
        Seq::empty()
    } else {
        pushed(pushes, n - 1) + pushes[n - 1]
    }
}

proof fn lemma_outbox_queued(
    before: Seq<Sim1hState>,
    after: Seq<Sim1hState>,
    delivered: Seq<Option<Seq<Lib3hToClient>>>,
    pushes: Seq<Seq<Lib3hToClient>>,
    j: int,
)
    requires
        0 <= j < before.len(),
        after.len() == before.len(),
        delivered.len() == before.len(),
        j <= pushes.len(),
        forall|i: int| 0 <= i < j ==> outbox_step(#[trigger] before[i], after[i], delivered[i]),
        forall|i: int| 0 <= i < j ==> before[i + 1].client_request_outbox@ == (#[trigger] after[i]).client_request_outbox@ + pushes[i],
        forall|i: int| 0 <= i < j ==> #[trigger] delivered[i] is None,
    ensures
        before[j].client_request_outbox@ == before[0].client_request_outbox@ + pushed(pushes, j),
    decreases j,
{
    if j == 0 {
        assert(before[0].client_request_outbox@ + pushed(pushes, 0) =~= before[0].client_request_outbox@);
    } else {
        lemma_outbox_queued(before, after, delivered, pushes, j - 1);
        assert(delivered[j - 1] is None);
        assert(outbox_step(before[j - 1], after[j - 1], delivered[j - 1]));
        assert(before[j].client_request_outbox@ == after[j - 1].client_request_outbox@ + pushes[j - 1]);
        assert(before[j].client_request_outbox@ =~= before[0].client_request_outbox@ + pushed(pushes, j));
    }
}

/// Over a run of ticks, where the caller only pushes to the request outbox
/// between them: the requests queued before the first tick come out once, in
/// order, followed by those pushed in between, at the tail of the requests of
/// the first tick that delivers any; the ticks before it keep them queued,
/// and that tick leaves the outbox empty.
pub proof fn lemma_outbox_delivered_once(
    before: Seq<Sim1hState>,
    after: Seq<Sim1hState>,
    delivered: Seq<Option<Seq<Lib3hToClient>>>,
    pushes: Seq<Seq<Lib3hToClient>>,
    k: int,
)
    requires
        0 <= k < before.len(),
        after.len() == before.len(),
        delivered.len() == before.len(),
        k <= pushes.len(),
        forall|i: int| 0 <= i <= k ==> outbox_step(#[trigger] before[i], after[i], delivered[i]),
        forall|i: int| 0 <= i < k ==> before[i + 1].client_request_outbox@ == (#[trigger] after[i]).client_request_outbox@ + pushes[i],
        forall|i: int| 0 <= i < k ==> #[trigger] delivered[i] is None,
        delivered[k] is Some,
    ensures
        forall|i: int| 0 <= i < k ==> (#[trigger] after[i]).client_request_outbox@.len() >= before[0].client_request_outbox@.len()
            && after[i].client_request_outbox@.take(before[0].client_request_outbox@.len() as int) == before[0].client_request_outbox@,
        delivered[k] matches Some(r) && {
            let queued = before[0].client_request_outbox@ + pushed(pushes, k);
            &&& r.len() >= queued.len()
            &&& r.skip(r.len() - queued.len()) == queued
        },
        after[k].client_request_outbox@.len() == 0,
{
    lemma_outbox_queued(before, after, delivered, pushes, k);
    assert forall|i: int| 0 <= i < k implies (#[trigger] after[i]).client_request_outbox@.len()
        >= before[0].client_request_outbox@.len() && after[i].client_request_outbox@.take(
        before[0].client_request_outbox@.len() as int,
    ) == before[0].client_request_outbox@ by {
        lemma_outbox_queued(before, after, delivered, pushes, i);
        assert(outbox_step(before[i], after[i], delivered[i]));
        assert(after[i].client_request_outbox@.take(before[0].client_request_outbox@.len() as int)
            =~= before[0].client_request_outbox@);
    }
    assert(outbox_step(before[k], after[k], delivered[k]));
}

/// The first tick that does work asks the client, first for the authoring
/// list and then for the gossiping list, both of the state's own space and
/// agent, under an empty request id.
pub proof fn lemma_first_tick_asks_own_lists(
    s0: Sim1hState,
    s1: Sim1hState,
    t1: RequestsTick,
    a1: TickAction,
    now: u128,
)
    requires
        Sim1hState::after_clock(s0, s1, t1, a1, now),
        !throttled(s0.last_tick(), now),
        !s0.initialized,
    ensures
        t1.messages().len() == 2,
        t1.messages()[0] matches Lib3hToClient::HandleGetAuthoringEntryList(d) && d.space_address@
            == s0.space_address@ && d.provider_agent_id@ == s0.agent_id@ && d.request_id@.len() == 0,
        t1.messages()[1] matches Lib3hToClient::HandleGetGossipingEntryList(d) && d.space_address@
            == s0.space_address@ && d.provider_agent_id@ == s0.agent_id@ && d.request_id@.len() == 0,
{
}

/// The inbox step hands each message of the inbox to the client unchanged,
/// in order, after the requests gathered so far: a response as the result of
/// a message the agent sent, any other as a message to handle. A failed
/// check hands none.
pub proof fn lemma_inbox_messages_relayed_unchanged(
    s3: Sim1hState,
    s4: Sim1hState,
    t3: RequestsTick,
    t4: RequestsTick,
    a4: TickAction,
    inbox: Result<Vec<(DirectMessageData, bool)>, BbDhtError>,
)
    requires
        Sim1hState::after_inbox(s3, s4, t3, t4, a4, inbox),
    ensures
        a4 matches TickAction::Finished(Ok(r)) && {
            let n = t3.messages().len();
            &&& r@.take(n as int) == t3.messages()
            &&& inbox is Err ==> r@.len() == n + s3.client_request_outbox@.len()
            &&& inbox matches Ok(v) ==> r@.len() == n + v@.len() + s3.client_request_outbox@.len()
                && forall|i: int|
                0 <= i < v@.len() ==> if v@[i].1 {
                    #[trigger] r@[n + i] == Lib3hToClient::SendDirectMessageResult(v@[i].0)
                } else {
                    r@[n + i] == Lib3hToClient::HandleSendDirectMessage(v@[i].0)
                }
        },
{
    if let TickAction::Finished(Ok(r)) = a4 {
        let n = t3.messages().len();
        let d = direct_message_requests(inbox);
        assert(r@ == t3.messages() + d + s3.client_request_outbox@);
        assert(r@.take(n as int) =~= t3.messages());
        if let Ok(v) = inbox {
            assert forall|i: int| 0 <= i < v@.len() implies if v@[i].1 {
                #[trigger] r@[n + i] == Lib3hToClient::SendDirectMessageResult(v@[i].0)
            } else {
                r@[n + i] == Lib3hToClient::HandleSendDirectMessage(v@[i].0)
            } by {
                assert(r@[n + i] == d[i]);
            }
        }
    }
}

proof fn lemma_found_aspects_sources(pending: Seq<(String, String)>, fetched: Seq<Option<FetchedAspect>>)
    requires
        fetched.len() <= pending.len(),
    ensures
        forall|k: int|
            0 <= k < found_aspects(pending, fetched).len() ==> exists|j: int|
                0 <= j < fetched.len() && #[trigger] fetched[j] == Some((#[trigger] found_aspects(pending, fetched)[k]).1)
                    && found_aspects(pending, fetched)[k].0 == pending[j].0@,
        forall|j: int|
            0 <= j < fetched.len() && #[trigger] fetched[j] is Some ==> exists|k: int|
                0 <= k < found_aspects(pending, fetched).len() && #[trigger] found_aspects(pending, fetched)[k] == (
                    pending[j].0@,
                    fetched[j]->0,
                ),
    decreases fetched.len(),
{
    if fetched.len() > 0 {
        let prev = fetched.drop_last();
        lemma_found_aspects_sources(pending, prev);
        let rest = found_aspects(pending, prev);
        let found = found_aspects(pending, fetched);
        let last = fetched.len() - 1;
        assert forall|k: int| 0 <= k < found.len() implies exists|j: int|
            0 <= j < fetched.len() && #[trigger] fetched[j] == Some((#[trigger] found[k]).1) && found[k].0 == pending[j].0@ by {
            if k < rest.len() {
                assert(found[k] == rest[k]);
                let j = choose|j: int| 0 <= j < prev.len() && prev[j] == Some(rest[k].1) && rest[k].0 == pending[j].0@;
                assert(fetched[j] == prev[j]);
            } else {
                assert(fetched[last] == Some(found[k].1));
            }
        }
        assert forall|j: int| 0 <= j < fetched.len() && #[trigger] fetched[j] is Some implies exists|k: int|
            0 <= k < found.len() && #[trigger] found[k] == (pending[j].0@, fetched[j]->0) by {
            if j < last {
                assert(prev[j] == fetched[j]);
                let k = choose|k: int| 0 <= k < rest.len() && rest[k] == (pending[j].0@, prev[j]->0);
                assert(found[k] == rest[k]);
            } else {
                assert(found[found.len() - 1] == (pending[j].0@, fetched[j]->0));
            }
        }
    }
}

/// `d` stores the fetched aspect `f` under the UUID of its random bytes, for
/// the agent of `state` in its space, under an entry where `incoming` lists
/// the aspect address `asked` and where `state` did not hold it yet.
pub open spec fn stored_from(
    d: StoreEntryAspectData,
    f: FetchedAspect,
    state: Sim1hState,
    incoming: Map<Seq<char>, Set<Seq<char>>>,
    asked: Seq<char>,
) -> bool {
    &&& d.entry_aspect == f.aspect
    &&& d.request_id@ == v4_uuid_text(f.random_bytes@)
    &&& d.space_address@ == state.space_address@
    &&& d.provider_agent_id@ == state.agent_id@
    &&& incoming.contains_key(d.entry_address@)
    &&& incoming[d.entry_address@].contains(asked)
    &&& !(state.held_aspects@.contains_key(d.entry_address@) && state.held_aspects@[d.entry_address@].contains(asked))
}

/// Each store request that a tick gathers names the entry under which the
/// scan listed the aspect address that was fetched for it, an address newly
/// found there, and carries the fetched aspect, under the UUID of its random
/// bytes, for the state's space and agent; and each aspect that the table
/// held gets such a request.
pub proof fn lemma_store_requests_name_their_entries(
    s1: Sim1hState,
    s2: Sim1hState,
    s3: Sim1hState,
    t1: RequestsTick,
    t2: RequestsTick,
    t3: RequestsTick,
    a2: TickAction,
    a3: TickAction,
    incoming: AspectAddressMap,
    key: Option<Item>,
    fetched: Seq<Option<FetchedAspect>>,
)
    requires
        Sim1hState::after_scan(s1, s2, t1, t2, a2, Ok((incoming, key))),
        Sim1hState::after_aspects(s2, s3, t2, t3, a3, fetched),
        fetched.len() == t2.pending().len(),
    ensures
        a2 matches TickAction::GetAspects { aspect_addresses, .. } && {
            let n = t1.messages().len();
            let stores = t3.messages().skip(n as int);
            &&& t3.messages().take(n as int) == t1.messages()
            &&& forall|k: int|
                0 <= k < stores.len() ==> #[trigger] stores[k] is HandleStoreEntryAspect && exists|j: int|
                    0 <= j < fetched.len() && #[trigger] fetched[j] is Some && stored_from(
                        stores[k]->HandleStoreEntryAspect_0,
                        fetched[j]->0,
                        s1,
                        incoming@,
                        aspect_addresses@[j]@,
                    )
            &&& forall|j: int|
                0 <= j < fetched.len() && #[trigger] fetched[j] is Some ==> exists|k: int|
                    0 <= k < stores.len() && #[trigger] stores[k] is HandleStoreEntryAspect && stored_from(
                        stores[k]->HandleStoreEntryAspect_0,
                        fetched[j]->0,
                        s1,
                        incoming@,
                        aspect_addresses@[j]@,
                    )
        },
{
    if let TickAction::GetAspects { table_name, aspect_addresses } = a2 {
        let pending = t2.pending();
        let n = t1.messages().len();
        let stores = t3.messages().skip(n as int);
        let found = found_aspects(pending, fetched);
        lemma_found_aspects_sources(pending, fetched);
        assert(pending.len() == aspect_addresses@.len());
        assert forall|j: int| 0 <= j < pending.len() implies incoming@.contains_key(#[trigger] pending[j].0@)
            && incoming@[pending[j].0@].contains(aspect_addresses@[j]@) && !(s1.held_aspects@.contains_key(
            pending[j].0@,
        ) && s1.held_aspects@[pending[j].0@].contains(aspect_addresses@[j]@)) by {
            assert(pair_views(pending)[j] == (pending[j].0@, pending[j].1@));
            assert(pair_views(pending).contains((pending[j].0@, pending[j].1@)));
            assert(aspect_addresses@[j]@ == pending[j].1@);
        }
        assert forall|k: int| 0 <= k < stores.len() implies #[trigger] stores[k] is HandleStoreEntryAspect && exists|j: int|
            0 <= j < fetched.len() && #[trigger] fetched[j] is Some && stored_from(
                stores[k]->HandleStoreEntryAspect_0,
                fetched[j]->0,
                s1,
                incoming@,
                aspect_addresses@[j]@,
            ) by {
            assert(is_store_request(stores[k], s1.space_address@, s1.agent_id@, found[k].0, found[k].1));
            let j = choose|j: int|
                0 <= j < fetched.len() && fetched[j] == Some(found[k].1) && found[k].0 == pending[j].0@;
            assert(incoming@.contains_key(pending[j].0@));
            assert(fetched[j] is Some);
        }
        assert forall|j: int| 0 <= j < fetched.len() && #[trigger] fetched[j] is Some implies exists|k: int|
            0 <= k < stores.len() && #[trigger] stores[k] is HandleStoreEntryAspect && stored_from(
                stores[k]->HandleStoreEntryAspect_0,
                fetched[j]->0,
                s1,
                incoming@,
                aspect_addresses@[j]@,
            ) by {
            let k = choose|k: int| 0 <= k < found.len() && found[k] == (pending[j].0@, fetched[j]->0);
            assert(is_store_request(stores[k], s1.space_address@, s1.agent_id@, found[k].0, found[k].1));
            assert(incoming@.contains_key(pending[j].0@));
            assert(stores[k] is HandleStoreEntryAspect);
        }
    }
}

/// Where a tick of the requests to the client stands.
#[derive(Debug)]
pub enum TickPhase {
    AwaitClock,
    AwaitScan,
    AwaitAspects,
    AwaitInbox,
    Finished,
}

/// One tick of the requests to the client: its phase, the requests gathered
/// so far, and the (entry, aspect) pairs whose aspects are being fetched.
#[derive(Debug)]
pub struct RequestsTick {
    phase: TickPhase,
    messages: Vec<Lib3hToClient>,
    pending: Vec<(String, String)>,
}

/// What the outside world answered to the tick's last action.
#[derive(Debug)]
pub enum TickEvent {
    /// The time, in nanoseconds from a fixed instant of a monotonic clock.
    Clock(u128),
    /// The aspect addresses of the entries that a scan of the space's table
    /// found, and the key where the scan goes on; or why the scan failed.
    Scanned(Result<(AspectAddressMap, Option<Item>), BbDhtError>),
    /// For each aspect address asked for, the aspect with 16 fresh random
    /// bytes for its request id, if the table holds it.
    AspectsFetched(Vec<Option<FetchedAspect>>),
    /// The direct messages in the agent's inbox, each with whether it is the
    /// result of a message the agent sent; or why the check failed.
    InboxChecked(Result<Vec<(DirectMessageData, bool)>, BbDhtError>),
}

/// What the tick asks the outside world to do next.
#[derive(Debug)]
pub enum TickAction {
    /// Read the clock.
    ReadClock,
    /// Scan the aspects of the table `table_name`, from `exclusive_start_key`.
    ScanAspects { table_name: String, exclusive_start_key: Option<Item> },
    /// Fetch each of these aspects from the table `table_name`.
    GetAspects { table_name: String, aspect_addresses: Vec<String> },
    /// Check the inbox of the agent `agent_id` in the space `space_address`.
    CheckInbox { space_address: String, agent_id: String },
    /// The tick is over: the requests for the client, or why it failed.
    Finished(Result<Vec<Lib3hToClient>, String>),
}

impl RequestsTick {
    pub closed spec fn phase(&self) -> TickPhase {
        self.phase
    }

    pub closed spec fn messages(&self) -> Seq<Lib3hToClient> {
        self.messages@
    }

    pub closed spec fn pending(&self) -> Seq<(String, String)> {
        self.pending@
    }

    /// Whether `event` answers the action that the tick awaits.
    pub open spec fn accepts(&self, event: TickEvent) -> bool {
        match (self.phase(), event) {
            (TickPhase::AwaitClock, TickEvent::Clock(_)) => true,
            (TickPhase::AwaitScan, TickEvent::Scanned(_)) => true,
            (TickPhase::AwaitAspects, TickEvent::AspectsFetched(fetched)) => fetched@.len() == self.pending().len(),
            (TickPhase::AwaitInbox, TickEvent::InboxChecked(_)) => true,
            _ => false,
        }
    }

    /// A tick that has done nothing yet, and its first action: reading the
    /// clock.
    pub fn start() -> (r: (RequestsTick, TickAction))
        ensures
            r.0.phase() is AwaitClock,
            r.0.messages().len() == 0,
            r.0.pending().len() == 0,
            r.1 is ReadClock,
    {
        (RequestsTick { phase: TickPhase::AwaitClock, messages: Vec::new(), pending: Vec::new() }, TickAction::ReadClock)
    }

    /// Whether `event` answers the action that the tick awaits.
    pub fn accepts_event(&self, event: &TickEvent) -> (r: bool)
        ensures
            r == self.accepts(*event),
    {
        match (&self.phase, event) {
            (TickPhase::AwaitClock, TickEvent::Clock(_)) => true,
            (TickPhase::AwaitScan, TickEvent::Scanned(_)) => true,
            (TickPhase::AwaitAspects, TickEvent::AspectsFetched(fetched)) => fetched.len() == self.pending.len(),
            (TickPhase::AwaitInbox, TickEvent::InboxChecked(_)) => true,
            _ => false,
        }
    }

    fn finished() -> (r: RequestsTick)
        ensures
            r.phase() is Finished,
            r.messages().len() == 0,
            r.pending().len() == 0,
    {
        RequestsTick { phase: TickPhase::Finished, messages: Vec::new(), pending: Vec::new() }
    }
}

impl Default for Sim1hState {
    /// A state with empty addresses: not initialized, with nothing to tell
    /// the client, holding nothing.
    fn default() -> (r: Self)
        ensures
            !r.initialized,
            r.space_address@ == Seq::<char>::empty(),
            r.agent_id@ == Seq::<char>::empty(),
            r.client_request_outbox@.len() == 0,
            r.client_response_outbox@.len() == 0,
            r.held_aspects@ == Map::<Seq<char>, Set<Seq<char>>>::empty(),
            r.num_ticks == 0,
            r.last_tick_nanos is None,
            r.last_evaluated_scan_key is None,
    {
        Sim1hState::new(String::new(), String::new())
    }
}

impl Sim1hState {
    pub open spec fn tick_count(&self) -> u32 {
        self.num_ticks
    }

    pub open spec fn last_tick(&self) -> Option<u128> {
        self.last_tick_nanos
    }

    pub open spec fn scan_key(&self) -> Option<Seq<(Seq<char>, AttributeView)>> {
        scan_key_view(self.last_evaluated_scan_key)
    }

    /// The state with the given tick bookkeeping, the rest kept.
    pub open spec fn with_ticks(self, initialized: bool, num_ticks: u32, last_tick: Option<u128>) -> Sim1hState {
        Sim1hState { initialized, num_ticks, last_tick_nanos: last_tick, ..self }
    }

    /// The state with the given held aspects and scan key, the rest kept.
    pub open spec fn with_scan(self, held_aspects: AspectAddressMap, key: Option<Item>) -> Sim1hState {
        Sim1hState { held_aspects, last_evaluated_scan_key: key, ..self }
    }

    /// The state with the given request outbox, the rest kept.
    pub open spec fn with_request_outbox(self, outbox: Vec<Lib3hToClient>) -> Sim1hState {
        Sim1hState { client_request_outbox: outbox, ..self }
    }

    /// The state with the given response outbox, the rest kept.
    pub open spec fn with_response_outbox(self, outbox: Vec<ClientToLib3hResponse>) -> Sim1hState {
        Sim1hState { client_response_outbox: outbox, ..self }
    }

    /// The outcome of a tick's clock reading at `now`: the authoring and
    /// gossiping lists are asked for once, on the first tick; a tick too soon
    /// after the last one that did work ends with no requests; else the tick
    /// is counted and goes on to scan the space's table where the last scan
    /// stopped.
    pub open spec fn after_clock(
        old: Sim1hState,
        new: Sim1hState,
        tick: RequestsTick,
        action: TickAction,
        now: u128,
    ) -> bool {
        if throttled(old.last_tick(), now) {
            &&& new == old.with_ticks(true, old.tick_count(), old.last_tick())
            &&& tick.phase() is Finished
            &&& action matches TickAction::Finished(Ok(r)) && r@.len() == 0
        } else {
            &&& new == old.with_ticks(true, (old.tick_count() + 1) as u32, Some(now))
            &&& tick.phase() is AwaitScan
            &&& tick.pending().len() == 0
            &&& if old.initialized {
                tick.messages().len() == 0
            } else {
                authoring_gossip_requests(tick.messages(), old.space_address@, old.agent_id@)
            }
            &&& action matches TickAction::ScanAspects { table_name, exclusive_start_key }
                && table_name@ == old.space_address@ && scan_key_view(exclusive_start_key) == old.scan_key()
        }
    }

    /// The outcome of a scan: a failed scan ends the tick with its message;
    /// else the state holds what the scan found for each entry, remembers
    /// where the scan stopped, and the tick fetches each newly found aspect.
    pub open spec fn after_scan(
        old: Sim1hState,
        new: Sim1hState,
        tick: RequestsTick,
        new_tick: RequestsTick,
        action: TickAction,
        scanned: Result<(AspectAddressMap, Option<Item>), BbDhtError>,
    ) -> bool {
        match scanned {
            Err(e) => {
                &&& new == old
                &&& new_tick.phase() is Finished
                &&& action matches TickAction::Finished(Err(m)) && m@ == e.message()
            },
            Ok((incoming, key)) => {
                &&& new == old.with_scan(new.held_aspects, key)
                &&& new.held_aspects@ == old.held_aspects@.union_prefer_right(incoming@)
                &&& new_tick.phase() is AwaitAspects
                &&& new_tick.messages() == tick.messages()
                &&& forall|e: Seq<char>, a: Seq<char>|
                    #![trigger pair_views(new_tick.pending()).contains((e, a))]
                    pair_views(new_tick.pending()).contains((e, a)) <==> new_aspects(
                        old.held_aspects@,
                        incoming@,
                        e,
                        a,
                    )
                &&& pair_views(new_tick.pending()).no_duplicates()
                &&& action matches TickAction::GetAspects { table_name, aspect_addresses }
                    && table_name@ == old.space_address@ && aspect_addresses@.len() == new_tick.pending().len()
                    && forall|k: int|
                    0 <= k < aspect_addresses@.len() ==> #[trigger] aspect_addresses@[k]@ == new_tick.pending()[k].1@
            },
        }
    }

    /// The outcome of fetching the pending aspects: a request to store each
    /// aspect found, in order, after the requests gathered so far; then the
    /// tick checks the agent's inbox.
    pub open spec fn after_aspects(
        old: Sim1hState,
        new: Sim1hState,
        tick: RequestsTick,
        new_tick: RequestsTick,
        action: TickAction,
        fetched: Seq<Option<FetchedAspect>>,
    ) -> bool {
        let n = tick.messages().len();
        &&& new == old
        &&& new_tick.phase() is AwaitInbox
        &&& n <= new_tick.messages().len()
        &&& new_tick.messages().take(n as int) == tick.messages()
        &&& store_requests_for(
            new_tick.messages().skip(n as int),
            old.space_address@,
            old.agent_id@,
            found_aspects(tick.pending(), fetched),
        )
        &&& action matches TickAction::CheckInbox { space_address, agent_id }
            && space_address@ == old.space_address@ && agent_id@ == old.agent_id@
    }

    /// The outcome of the inbox check: the tick ends with the requests
    /// gathered so far, then one per message found, then those waiting in
    /// the request outbox, which is left empty.
    pub open spec fn after_inbox(
        old: Sim1hState,
        new: Sim1hState,
        tick: RequestsTick,
        new_tick: RequestsTick,
        action: TickAction,
        inbox: Result<Vec<(DirectMessageData, bool)>, BbDhtError>,
    ) -> bool {
        &&& new == old.with_request_outbox(new.client_request_outbox)
        &&& new.client_request_outbox@.len() == 0
        &&& new_tick.phase() is Finished
        &&& action matches TickAction::Finished(Ok(r))
            && r@ == tick.messages() + direct_message_requests(inbox) + old.client_request_outbox@
    }

    /// A new state of the agent `agent_id` in the space `space_address`:
    /// not initialized, with nothing to tell the client, holding nothing.
    pub fn new(space_address: String, agent_id: String) -> (r: Self)
        ensures
            !r.initialized,
            r.space_address == space_address,
            r.agent_id == agent_id,
            r.client_request_outbox@.len() == 0,
            r.client_response_outbox@.len() == 0,
            r.held_aspects@ == Map::<Seq<char>, Set<Seq<char>>>::empty(),
            r.tick_count() == 0,
            r.last_tick() is None,
            r.scan_key() is None,
    {
        Sim1hState {
            initialized: false,
            space_address,
            agent_id,
            client_request_outbox: Vec::new(),
            client_response_outbox: Vec::new(),
            held_aspects: AspectAddressMap::new(),
            num_ticks: 0,
            last_tick_nanos: None,
            last_evaluated_scan_key: None,
        }
    }

    /// How many ticks have done work.
    pub fn num_ticks(&self) -> (r: u32)
        ensures
            r == self.tick_count(),
    {
        self.num_ticks
    }

    /// Whether a clock reading at `now` would count one tick more than a
    /// `u32` holds.
    pub fn tick_overflows(&self, now: u128) -> (r: bool)
        ensures
            r == (!throttled(self.last_tick(), now) && self.tick_count() == u32::MAX),
    {
        let throttled = match self.last_tick_nanos {
            Some(then) => {
                let millis = if now >= then {
                    (now - then) / 1_000_000
                } else {
                    0
                };
                millis < MIN_TOLERABLE_TICK_INTERVAL_MS
            },
            None => false,
        };
        !throttled && self.num_ticks == u32::MAX
    }

    /// Whether the authoring and gossiping lists are still to be asked for.
    fn should_get_authoring_list(&self) -> (r: bool)
        ensures
            r == !self.initialized,
    {
        self.initialized == false
    }

    /// The requests for the authoring list and the gossiping list of this
    /// agent in this space.
    fn create_authoring_gossip_list_requests(&self) -> (r: Vec<Lib3hToClient>)
        ensures
            authoring_gossip_requests(r@, self.space_address@, self.agent_id@),
            r@.len() == 2,
            r@[0] matches Lib3hToClient::HandleGetAuthoringEntryList(d) && d.space_address@ == self.space_address@
                && d.provider_agent_id@ == self.agent_id@ && d.request_id@.len() == 0,
            r@[1] matches Lib3hToClient::HandleGetGossipingEntryList(d) && d.space_address@ == self.space_address@
                && d.provider_agent_id@ == self.agent_id@ && d.request_id@.len() == 0,
    {
        let mut requests: Vec<Lib3hToClient> = Vec::new();
        requests.push(
            Lib3hToClient::HandleGetAuthoringEntryList(
                GetListData {
                    space_address: self.space_address.clone(),
                    provider_agent_id: self.agent_id.clone(),
                    request_id: String::new(),
                },
            ),
        );
        requests.push(
            Lib3hToClient::HandleGetGossipingEntryList(
                GetListData {
                    space_address: self.space_address.clone(),
                    provider_agent_id: self.agent_id.clone(),
                    request_id: String::new(),
                },
            ),
        );
        requests
    }

    fn on_clock(&mut self, now: u128) -> (r: (RequestsTick, TickAction))
        requires
            !throttled(old(self).last_tick(), now) ==> old(self).tick_count() < u32::MAX,
        ensures
            Self::after_clock(*old(self), *final(self), r.0, r.1, now),
    {
        let requests = if self.should_get_authoring_list() {
            self.initialized = true;
            self.create_authoring_gossip_list_requests()
        } else {
            Vec::new()
        };
        if let Some(then) = self.last_tick_nanos {
            let millis = if now >= then {
                (now - then) / 1_000_000
            } else {
                0
            };
            if millis < MIN_TOLERABLE_TICK_INTERVAL_MS {
                return (RequestsTick::finished(), TickAction::Finished(Ok(Vec::new())));
            }
        }
        self.last_tick_nanos = Some(now);
        self.num_ticks = self.num_ticks + 1;
        let exclusive_start_key = match &self.last_evaluated_scan_key {
            Some(key) => Some(copy_item(key)),
            None => None,
        };
        let tick = RequestsTick { phase: TickPhase::AwaitScan, messages: requests, pending: Vec::new() };
        (tick, TickAction::ScanAspects { table_name: self.space_address.clone(), exclusive_start_key })
    }

    fn on_scan(&mut self, tick: RequestsTick, scanned: Result<(AspectAddressMap, Option<Item>), BbDhtError>) -> (r: (
        RequestsTick,
        TickAction,
    ))
        ensures
            Self::after_scan(*old(self), *final(self), tick, r.0, r.1, scanned),
    {
        match scanned {
            Err(e) => (RequestsTick::finished(), TickAction::Finished(Err(e.to_string()))),
            Ok((incoming, key)) => {
                self.last_evaluated_scan_key = key;
                let pending = self.held_aspects.update_from(&incoming);
                let mut aspect_addresses: Vec<String> = Vec::new();
                let mut i: usize = 0;
                while i < pending.len()
                    invariant
                        i <= pending@.len(),
                        aspect_addresses@.len() == i,
                        forall|k: int| 0 <= k < i ==> #[trigger] aspect_addresses@[k]@ == pending@[k].1@,
                    decreases pending@.len() - i,
                {
                    aspect_addresses.push(pending[i].1.clone());
                    i = i + 1;
                }
                let new_tick = RequestsTick { phase: TickPhase::AwaitAspects, messages: tick.messages, pending };
                (new_tick, TickAction::GetAspects { table_name: self.space_address.clone(), aspect_addresses })
            },
        }
    }

    fn on_aspects(&self, tick: RequestsTick, fetched: Vec<Option<FetchedAspect>>) -> (r: (RequestsTick, TickAction))
        requires
            fetched@.len() == tick.pending().len(),
        ensures
            Self::after_aspects(*self, *self, tick, r.0, r.1, fetched@),
    {
        let ghost all = fetched@;
        let ghost n = tick.messages@.len();
        let mut messages = tick.messages;
        let mut rest = fetched;
        let total = rest.len();
        let mut i: usize = 0;
        while rest.len() > 0
            invariant
                total == all.len(),
                i + rest@.len() == all.len(),
                rest@ == all.skip(i as int),
                all.len() == tick.pending@.len(),
                n <= messages@.len(),
                messages@.take(n as int) == tick.messages@,
                store_requests_for(
                    messages@.skip(n as int),
                    self.space_address@,
                    self.agent_id@,
                    found_aspects(tick.pending@, all.take(i as int)),
                ),
            decreases rest@.len(),
        {
            let ghost before = messages@;
            let ghost t = all.take(i + 1);
            assert(t.drop_last() =~= all.take(i as int));
            assert(t.last() == all[i as int]);
            let item = rest.remove(0);
            assert(item == all[i as int]);
            match item {
                Some(found) => {
                    let data = StoreEntryAspectData {
                        request_id: v4_request_id(found.random_bytes),
                        space_address: self.space_address.clone(),
                        provider_agent_id: self.agent_id.clone(),
                        entry_address: tick.pending[i].0.clone(),
                        entry_aspect: found.aspect,
                    };
                    messages.push(Lib3hToClient::HandleStoreEntryAspect(data));
                    assert(messages@.take(n as int) =~= before.take(n as int));
                    assert(messages@.skip(n as int) =~= before.skip(n as int).push(Lib3hToClient::HandleStoreEntryAspect(data)));
                },
                None => {},
            }
            assert(rest@ =~= all.skip(i + 1));
            i = i + 1;
        }
        assert(all.take(i as int) =~= all);
        let new_tick = RequestsTick { phase: TickPhase::AwaitInbox, messages, pending: tick.pending };
        (new_tick, TickAction::CheckInbox { space_address: self.space_address.clone(), agent_id: self.agent_id.clone() })
    }

    /// The requests for the direct messages that an inbox check found, in
    /// order; none if the check failed.
    fn create_direct_message_requests(inbox: Result<Vec<(DirectMessageData, bool)>, BbDhtError>) -> (r: Vec<Lib3hToClient>)
        ensures
            r@ == direct_message_requests(inbox),
            inbox is Err ==> r@.len() == 0,
            inbox matches Ok(v) ==> r@.len() == v@.len() && forall|i: int|
                0 <= i < v@.len() ==> if v@[i].1 {
                    #[trigger] r@[i] == Lib3hToClient::SendDirectMessageResult(v@[i].0)
                } else {
                    r@[i] == Lib3hToClient::HandleSendDirectMessage(v@[i].0)
                },
    {
        match inbox {
            Err(_) => Vec::new(),
            Ok(messages) => {
                let ghost all = messages@;
                let mut rest = messages;
                let total = rest.len();
                let mut requests: Vec<Lib3hToClient> = Vec::new();
                let mut i: usize = 0;
                while rest.len() > 0
                    invariant
                        total == all.len(),
                        i + rest@.len() == all.len(),
                        rest@ == all.skip(i as int),
                        requests@ == all.take(i as int).map_values(|m: (DirectMessageData, bool)| direct_message_request(m.0, m.1)),
                    decreases rest@.len(),
                {
                    let (message, is_response) = rest.remove(0);
                    let request = if is_response {
                        Lib3hToClient::SendDirectMessageResult(message)
                    } else {
                        Lib3hToClient::HandleSendDirectMessage(message)
                    };
                    requests.push(request);
                    assert(all.take(i + 1) =~= all.take(i as int).push(all[i as int]));
                    assert(requests@ =~= all.take(i + 1).map_values(|m: (DirectMessageData, bool)| direct_message_request(m.0, m.1)));
                    assert(rest@ =~= all.skip(i + 1));
                    i = i + 1;
                }
                assert(all.take(i as int) =~= all);
                requests
            },
        }
    }

    fn on_inbox(&mut self, tick: RequestsTick, inbox: Result<Vec<(DirectMessageData, bool)>, BbDhtError>) -> (r: (
        RequestsTick,
        TickAction,
    ))
        ensures
            Self::after_inbox(*old(self), *final(self), tick, r.0, r.1, inbox),
    {
        let mut messages = tick.messages;
        let mut direct = Self::create_direct_message_requests(inbox);
        messages.append(&mut direct);
        let mut outbox: Vec<Lib3hToClient> = Vec::new();
        std::mem::swap(&mut outbox, &mut self.client_request_outbox);
        messages.append(&mut outbox);
        (RequestsTick::finished(), TickAction::Finished(Ok(messages)))
    }

    /// One step of a tick of the requests to the client: takes the answer to
    /// the tick's last action, and gives the tick and its next action. A tick
    /// reads the clock, scans the space's table, fetches the aspects it has
    /// newly found, checks the agent's inbox, and ends with the requests for
    /// the client.
    pub fn process_pending_requests_to_client(&mut self, tick: RequestsTick, event: TickEvent) -> (r: (
        RequestsTick,
        TickAction,
    ))
        requires
            tick.accepts(event),
            event matches TickEvent::Clock(now) ==> (!throttled(old(self).last_tick(), now) ==> old(self).tick_count()
                < u32::MAX),
        ensures
            event matches TickEvent::Clock(now) ==> Self::after_clock(*old(self), *final(self), r.0, r.1, now),
            event matches TickEvent::Scanned(scanned) ==> Self::after_scan(
                *old(self),
                *final(self),
                tick,
                r.0,
                r.1,
                scanned,
            ),
            event matches TickEvent::AspectsFetched(fetched) ==> Self::after_aspects(
                *old(self),
                *final(self),
                tick,
                r.0,
                r.1,
                fetched@,
            ),
            event matches TickEvent::InboxChecked(inbox) ==> Self::after_inbox(
                *old(self),
                *final(self),
                tick,
                r.0,
                r.1,
                inbox,
            ),
    {
        match event {
            TickEvent::Clock(now) => self.on_clock(now),
            TickEvent::Scanned(scanned) => self.on_scan(tick, scanned),
            TickEvent::AspectsFetched(fetched) => self.on_aspects(tick, fetched),
            TickEvent::InboxChecked(inbox) => self.on_inbox(tick, inbox),
        }
    }

    /// Hands over the responses waiting for the client, in order, and leaves
    /// none.
    pub fn process_pending_responses_to_client(&mut self) -> (r: Vec<ClientToLib3hResponse>)
        ensures
            r@ == old(self).client_response_outbox@,
            final(self).client_response_outbox@.len() == 0,
            *final(self) == old(self).with_response_outbox(final(self).client_response_outbox),
    {
        let mut responses: Vec<ClientToLib3hResponse> = Vec::new();
        std::mem::swap(&mut responses, &mut self.client_response_outbox);
        responses
    }

    /// Holding an entry that a client provides needs no work here: it always
    /// succeeds.
    pub fn hold_entry(_data: &ProvidedEntryData) -> (r: Result<(), BbDhtError>)
        ensures
            r is Ok,
    {
        Ok(())
    }
}

} // verus!
