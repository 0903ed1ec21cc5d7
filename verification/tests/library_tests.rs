use rusoto_core::request::HttpDispatchError;
use rusoto_core::CredentialsError;
use rusoto_core::RusotoError;
use rusoto_dynamodb::DescribeTableError;
use rusoto_dynamodb::GetItemError;
use rusoto_dynamodb::PutItemError;
use sim1h::agent_read::agent_exists;
use sim1h::agent_read::AgentExists;
use sim1h::agent_read::AgentExistsEvent;
use sim1h::aspect_map::AspectAddressMap;
use sim1h::aspect_write::append_aspect_list;
use sim1h::aspect_write::aspect_list_to_attribute;
use sim1h::aspect_write::put_aspect;
use sim1h::aspect_write::retry_put_aspect;
use sim1h::error::BbDhtError;
use sim1h::error::RusotoFailure;
use sim1h::error::ServiceFailure;
use sim1h::protocol::ClientToLib3hResponse;
use sim1h::protocol::DirectMessageData;
use sim1h::protocol::EntryAspectData;
use sim1h::protocol::EntryListData;
use sim1h::protocol::Lib3hToClient;
use sim1h::schema::AttributeValue;
use sim1h::state::FetchedAspect;
use sim1h::state::RequestsTick;
use sim1h::state::Sim1hState;
use sim1h::state::TickAction;
use sim1h::state::TickEvent;

fn s(x: &str) -> String {
    x.to_string()
}

fn aspect(n: u8) -> EntryAspectData {
    EntryAspectData {
        aspect_address: format!("aspect-{}", n),
        type_hint: s("hint"),
        aspect: vec![n, 0, n],
        publish_ts: n as u64,
    }
}

fn direct_message(n: u8) -> DirectMessageData {
    DirectMessageData {
        space_address: s("space"),
        request_id: format!("dm-{}", n),
        to_agent_id: s("agent"),
        from_agent_id: s("other"),
        content: vec![n],
    }
}

#[test]
fn to_string_gives_the_message_of_each_variant() {
    assert_eq!(BbDhtError::MissingData(s("gone")).to_string(), "gone");
    assert_eq!(BbDhtError::CorruptData(s("bad")).to_string(), "bad");
    assert_eq!(BbDhtError::Unknown(s("?")).to_string(), "?");
    assert_eq!(BbDhtError::ConditionalCheckFailed(s("cond")).to_string(), "cond");
}

#[test]
fn parse_int_error_becomes_corrupt_data() {
    let err = "abc".parse::<u32>().unwrap_err();
    let expected = err.to_string();
    match BbDhtError::from(err) {
        BbDhtError::CorruptData(m) => assert_eq!(m, expected),
        other => panic!("{:?}", other),
    }
}

#[test]
fn rusoto_failure_keeps_kind_and_message() {
    let cases = vec![
        (RusotoFailure::Service(ServiceFailure::TransactionConflict(s("t"))), "TransactionConflict"),
        (RusotoFailure::Service(ServiceFailure::ItemCollectionSizeLimitExceeded(s("t"))), "ItemCollectionSizeLimitExceeded"),
        (RusotoFailure::HttpDispatch(s("t")), "HttpDispatch"),
        (RusotoFailure::Credentials(s("t")), "Credentials"),
        (RusotoFailure::Validation(s("t")), "Validation"),
        (RusotoFailure::ParseError(s("t")), "ParseError"),
        (RusotoFailure::Unknown(s("t")), "Unknown"),
    ];
    for (failure, kind) in cases {
        let e = BbDhtError::from_rusoto_failure(failure);
        assert_eq!(e.to_string(), "t");
        assert!(format!("{:?}", e).starts_with(kind), "{:?} is not {}", e, kind);
    }
}

#[test]
fn get_item_errors_map_by_kind() {
    let e = BbDhtError::from(RusotoError::Service(GetItemError::ResourceNotFound(s("no table"))));
    assert!(matches!(&e, BbDhtError::ResourceNotFound(m) if m == "no table"));
    let e = BbDhtError::from(RusotoError::Service(GetItemError::ProvisionedThroughputExceeded(s("slow"))));
    assert!(matches!(&e, BbDhtError::ProvisionedThroughputExceeded(m) if m == "slow"));
    let e: BbDhtError = BbDhtError::from(RusotoError::<GetItemError>::HttpDispatch(HttpDispatchError::new(s("boom"))));
    assert!(matches!(&e, BbDhtError::HttpDispatch(m) if m == "boom"));
    let e: BbDhtError = BbDhtError::from(RusotoError::<GetItemError>::Credentials(CredentialsError::new("who")));
    assert!(matches!(&e, BbDhtError::Credentials(m) if m == "who"));
    let e: BbDhtError = BbDhtError::from(RusotoError::<GetItemError>::Validation(s("invalid")));
    assert!(matches!(&e, BbDhtError::Validation(m) if m == "invalid"));
    let e: BbDhtError = BbDhtError::from(RusotoError::<GetItemError>::ParseError(s("parse")));
    assert!(matches!(&e, BbDhtError::ParseError(m) if m == "parse"));
}

#[test]
fn put_item_errors_map_by_kind() {
    let e = BbDhtError::from(RusotoError::Service(PutItemError::ConditionalCheckFailed(s("c"))));
    assert!(matches!(&e, BbDhtError::ConditionalCheckFailed(m) if m == "c"));
    let e = BbDhtError::from(RusotoError::Service(PutItemError::TransactionConflict(s("t"))));
    assert!(matches!(&e, BbDhtError::TransactionConflict(m) if m == "t"));
    let e = BbDhtError::from(RusotoError::Service(PutItemError::ItemCollectionSizeLimitExceeded(s("i"))));
    assert!(matches!(&e, BbDhtError::ItemCollectionSizeLimitExceeded(m) if m == "i"));
    let e = BbDhtError::from(RusotoError::Service(PutItemError::RequestLimitExceeded(s("r"))));
    assert!(matches!(&e, BbDhtError::RequestLimitExceeded(m) if m == "r"));
}

#[test]
fn describe_table_errors_map_by_kind() {
    let e = BbDhtError::from(RusotoError::Service(DescribeTableError::InternalServerError(s("oops"))));
    assert!(matches!(&e, BbDhtError::InternalServerError(m) if m == "oops"));
    let e = BbDhtError::from(RusotoError::Service(DescribeTableError::ResourceNotFound(s("none"))));
    assert!(matches!(&e, BbDhtError::ResourceNotFound(m) if m == "none"));
}

#[test]
fn agent_lookup_passes_errors_on() {
    let step = agent_exists(
        AgentExists::start(),
        AgentExistsEvent::TableChecked(Err(BbDhtError::ResourceNotFound(s("x")))),
    );
    assert!(matches!(step, AgentExists::Done(Err(BbDhtError::ResourceNotFound(_)))));
    let step = agent_exists(AgentExists::start(), AgentExistsEvent::TableChecked(Ok(true)));
    assert!(matches!(step, AgentExists::GetAgentItem));
    let step = agent_exists(step, AgentExistsEvent::ItemFetched(Err(BbDhtError::Unknown(s("u")))));
    assert!(matches!(step, AgentExists::Done(Err(BbDhtError::Unknown(_)))));
    // an answer to another question leaves the lookup where it is
    let step = agent_exists(AgentExists::start(), AgentExistsEvent::ItemFetched(Ok(true)));
    assert!(matches!(step, AgentExists::CheckTable));
}

#[test]
fn put_aspect_writes_the_four_attributes() {
    let a = aspect(5);
    let request = put_aspect(&s("table"), &a);
    assert_eq!(request.table_name, "table");
    assert_eq!(
        request.item,
        vec![
            (s("address"), AttributeValue::S(s("aspect-5"))),
            (s("aspect_address"), AttributeValue::S(s("aspect-5"))),
            (s("aspect_type_hint"), AttributeValue::S(s("hint"))),
            (s("aspect"), AttributeValue::B(vec![5, 0, 5])),
        ]
    );
}

#[test]
fn failed_puts_are_tried_again() {
    let outcome: Result<(), String> = Err(s("throttled"));
    assert!(retry_put_aspect(&outcome));
}

#[test]
fn append_plan_puts_each_aspect_then_adds_the_list() {
    let list = vec![aspect(1), aspect(2)];
    let plan = append_aspect_list(&s("t"), &s("entry"), &list);
    assert_eq!(plan.puts.len(), 2);
    assert_eq!(plan.puts[1].item[0], (s("address"), AttributeValue::S(s("aspect-2"))));
    assert_eq!(plan.update.table_name, "t");
    assert_eq!(plan.update.key, vec![(s("address"), AttributeValue::S(s("entry")))]);
    assert_eq!(plan.update.update_expression, "ADD #aspect_list :aspects");
    assert_eq!(plan.update.expression_attribute_names, vec![(s("#aspect_list"), s("aspect_list"))]);
    assert_eq!(
        plan.update.expression_attribute_values,
        vec![(s(":aspects"), AttributeValue::SS(vec![s("aspect-1"), s("aspect-2")]))]
    );
}

#[test]
fn empty_aspect_list_is_an_empty_set() {
    assert_eq!(aspect_list_to_attribute(&vec![]), AttributeValue::SS(vec![]));
}

#[test]
fn aspect_map_insert_and_get() {
    let mut map = AspectAddressMap::new();
    assert!(!map.contains_key(&s("e")));
    assert!(map.insert(s("e"), vec![s("a"), s("b"), s("a")]).is_none());
    assert!(map.contains_key(&s("e")));
    let mut got = map.get(&s("e")).unwrap();
    got.sort();
    assert_eq!(got, vec![s("a"), s("b")]);
    let old = map.insert(s("e"), vec![s("c")]).unwrap();
    assert_eq!(old.len(), 2);
    assert_eq!(map.get(&s("e")).unwrap(), vec![s("c")]);
    assert!(map.get(&s("f")).is_none());
}

#[test]
fn update_from_finds_new_aspects_once() {
    let mut held = AspectAddressMap::new();
    held.insert(s("e1"), vec![s("a1")]);
    held.insert(s("e3"), vec![s("z")]);
    let mut incoming = AspectAddressMap::new();
    incoming.insert(s("e1"), vec![s("a1"), s("a2")]);
    incoming.insert(s("e2"), vec![s("b1")]);
    let mut found = held.update_from(&incoming);
    found.sort();
    assert_eq!(found, vec![(s("e1"), s("a2")), (s("e2"), s("b1"))]);
    assert_eq!(held.get(&s("e2")).unwrap(), vec![s("b1")]);
    assert_eq!(held.get(&s("e3")).unwrap(), vec![s("z")]);
    // the same scan again finds nothing new
    assert!(held.update_from(&incoming).is_empty());
}

#[test]
fn update_from_replaces_what_an_entry_held() {
    let mut held = AspectAddressMap::new();
    held.insert(s("e"), vec![s("old")]);
    let mut incoming = AspectAddressMap::new();
    incoming.insert(s("e"), vec![s("new")]);
    let found = held.update_from(&incoming);
    assert_eq!(found, vec![(s("e"), s("new"))]);
    assert_eq!(held.get(&s("e")).unwrap(), vec![s("new")]);
}

fn step(state: &mut Sim1hState, tick: RequestsTick, event: TickEvent) -> (RequestsTick, TickAction) {
    assert!(tick.accepts_event(&event));
    state.process_pending_requests_to_client(tick, event)
}

#[test]
fn a_whole_tick_gathers_the_requests_in_order() {
    let mut state = Sim1hState::new(s("space"), s("agent"));
    state.client_request_outbox.push(Lib3hToClient::HandleSendDirectMessage(direct_message(9)));
    let (tick, action) = RequestsTick::start();
    assert!(matches!(action, TickAction::ReadClock));
    let (tick, action) = step(&mut state, tick, TickEvent::Clock(1_000_000_000));
    assert!(state.initialized);
    assert_eq!(state.num_ticks(), 1);
    match &action {
        TickAction::ScanAspects { table_name, exclusive_start_key } => {
            assert_eq!(table_name, "space");
            assert!(exclusive_start_key.is_none());
        }
        other => panic!("{:?}", other),
    }
    let mut incoming = AspectAddressMap::new();
    incoming.insert(s("e1"), vec![s("aspect-1"), s("aspect-2")]);
    let key = vec![(s("address"), AttributeValue::S(s("e1")))];
    let (tick, action) = step(&mut state, tick, TickEvent::Scanned(Ok((incoming, Some(key.clone())))));
    assert_eq!(state.last_evaluated_scan_key, Some(key.clone()));
    let addresses = match action {
        TickAction::GetAspects { table_name, aspect_addresses } => {
            assert_eq!(table_name, "space");
            aspect_addresses
        }
        other => panic!("{:?}", other),
    };
    assert_eq!(addresses.len(), 2);
    let fetched: Vec<Option<FetchedAspect>> = addresses
        .iter()
        .map(|a| if a == "aspect-1" { Some(FetchedAspect { aspect: aspect(1), random_bytes: [0u8; 16] }) } else { None })
        .collect();
    let (tick, action) = step(&mut state, tick, TickEvent::AspectsFetched(fetched));
    match &action {
        TickAction::CheckInbox { space_address, agent_id } => {
            assert_eq!(space_address, "space");
            assert_eq!(agent_id, "agent");
        }
        other => panic!("{:?}", other),
    }
    let inbox = Ok(vec![(direct_message(1), true), (direct_message(2), false)]);
    let (_tick, action) = step(&mut state, tick, TickEvent::InboxChecked(inbox));
    let requests = match action {
        TickAction::Finished(Ok(r)) => r,
        other => panic!("{:?}", other),
    };
    assert_eq!(requests.len(), 6);
    assert!(matches!(&requests[0], Lib3hToClient::HandleGetAuthoringEntryList(d)
        if d.space_address == "space" && d.provider_agent_id == "agent" && d.request_id.is_empty()));
    assert!(matches!(&requests[1], Lib3hToClient::HandleGetGossipingEntryList(_)));
    assert!(matches!(&requests[2], Lib3hToClient::HandleStoreEntryAspect(d)
        if d.entry_address == "e1" && d.entry_aspect.aspect_address == "aspect-1" && d.request_id == "00000000-0000-4000-8000-000000000000"));
    assert!(matches!(&requests[3], Lib3hToClient::SendDirectMessageResult(m) if m.request_id == "dm-1"));
    assert!(matches!(&requests[4], Lib3hToClient::HandleSendDirectMessage(m) if m.request_id == "dm-2"));
    assert!(matches!(&requests[5], Lib3hToClient::HandleSendDirectMessage(m) if m.request_id == "dm-9"));
    assert!(state.client_request_outbox.is_empty());

    // too soon: no work, no count
    let (tick, _) = RequestsTick::start();
    let (_tick, action) = step(&mut state, tick, TickEvent::Clock(1_079_999_999));
    assert!(matches!(action, TickAction::Finished(Ok(ref r)) if r.is_empty()));
    assert_eq!(state.num_ticks(), 1);

    // late enough: no authoring list again, the scan goes on where it stopped
    let (tick, _) = RequestsTick::start();
    let (tick, action) = step(&mut state, tick, TickEvent::Clock(1_080_000_000));
    assert_eq!(state.num_ticks(), 2);
    match &action {
        TickAction::ScanAspects { exclusive_start_key, .. } => assert_eq!(exclusive_start_key, &Some(key)),
        other => panic!("{:?}", other),
    }
    let mut incoming = AspectAddressMap::new();
    incoming.insert(s("e1"), vec![s("aspect-1"), s("aspect-2")]);
    let (tick, action) = step(&mut state, tick, TickEvent::Scanned(Ok((incoming, None))));
    assert!(matches!(action, TickAction::GetAspects { ref aspect_addresses, .. } if aspect_addresses.is_empty()));
    let (tick, _) = step(&mut state, tick, TickEvent::AspectsFetched(vec![]));
    let (_, action) = step(&mut state, tick, TickEvent::InboxChecked(Err(BbDhtError::Unknown(s("down")))));
    assert!(matches!(action, TickAction::Finished(Ok(ref r)) if r.is_empty()));
}

#[test]
fn a_failed_scan_ends_the_tick_with_its_message() {
    let mut state = Sim1hState::new(s("space"), s("agent"));
    let (tick, _) = RequestsTick::start();
    let (tick, _) = step(&mut state, tick, TickEvent::Clock(5));
    let (_, action) = step(&mut state, tick, TickEvent::Scanned(Err(BbDhtError::ResourceNotFound(s("no table")))));
    assert!(matches!(action, TickAction::Finished(Err(ref m)) if m == "no table"));
    assert!(!state.held_aspects.contains_key(&s("e1")));
}

#[test]
fn events_out_of_turn_are_not_accepted() {
    let (tick, _) = RequestsTick::start();
    assert!(!tick.accepts_event(&TickEvent::AspectsFetched(vec![])));
    assert!(tick.accepts_event(&TickEvent::Clock(0)));
}

#[test]
fn tick_overflow_is_reported_before_it_happens() {
    let mut state = Sim1hState::new(s("space"), s("agent"));
    state.num_ticks = u32::MAX;
    assert!(state.tick_overflows(10));
    state.last_tick_nanos = Some(5);
    assert!(!state.tick_overflows(79_999_999));
    assert!(state.tick_overflows(80_000_005));
}

#[test]
fn responses_are_handed_over_once() {
    let mut state = Sim1hState::new(s("space"), s("agent"));
    state.client_response_outbox.push(ClientToLib3hResponse::HandleSendDirectMessageResult(direct_message(3)));
    state.client_response_outbox.push(ClientToLib3hResponse::HandleGetAuthoringEntryListResult(EntryListData {
        space_address: s("space"),
        provider_agent_id: s("agent"),
        request_id: s("r"),
        address_map: vec![],
    }));
    let first = state.process_pending_responses_to_client();
    assert_eq!(first.len(), 2);
    assert!(matches!(&first[0], ClientToLib3hResponse::HandleSendDirectMessageResult(m) if m.request_id == "dm-3"));
    assert!(state.process_pending_responses_to_client().is_empty());
}

#[test]
fn default_state_starts_empty() {
    let state = Sim1hState::default();
    assert!(!state.initialized);
    assert!(state.space_address.is_empty());
    assert!(state.agent_id.is_empty());
    assert_eq!(state.num_ticks, 0);
    assert!(state.last_tick_nanos.is_none());
    assert!(state.client_response_outbox.is_empty());
}

#[test]
fn new_state_starts_empty() {
    let state = Sim1hState::new(s("space"), s("agent"));
    assert!(!state.initialized);
    assert_eq!(state.space_address, "space");
    assert_eq!(state.agent_id, "agent");
    assert_eq!(state.num_ticks(), 0);
    assert!(state.client_request_outbox.is_empty());
    assert!(state.last_evaluated_scan_key.is_none());
}

fn run_tick(state: &mut Sim1hState, now: u128) -> Result<Vec<Lib3hToClient>, String> {
    let (mut tick, mut action) = RequestsTick::start();
    loop {
        let event = match action {
            TickAction::ReadClock => TickEvent::Clock(now),
            TickAction::ScanAspects { .. } => TickEvent::Scanned(Ok((AspectAddressMap::new(), None))),
            TickAction::GetAspects { aspect_addresses, .. } => {
                TickEvent::AspectsFetched(aspect_addresses.iter().map(|_| None).collect())
            }
            TickAction::CheckInbox { .. } => TickEvent::InboxChecked(Ok(vec![])),
            TickAction::Finished(r) => return r,
        };
        let (t, a) = step(state, tick, event);
        tick = t;
        action = a;
    }
}

#[test]
fn queued_requests_come_out_once_in_order() {
    let mut state = Sim1hState::new(s("space"), s("agent"));
    state.client_request_outbox.push(Lib3hToClient::HandleSendDirectMessage(direct_message(1)));
    let first = run_tick(&mut state, 0).unwrap();
    assert_eq!(first.len(), 3);
    assert!(matches!(&first[2], Lib3hToClient::HandleSendDirectMessage(m) if m.request_id == "dm-1"));
    state.client_request_outbox.push(Lib3hToClient::HandleSendDirectMessage(direct_message(2)));
    // too soon: kept queued
    assert!(run_tick(&mut state, 10_000_000).unwrap().is_empty());
    assert_eq!(state.client_request_outbox.len(), 1);
    state.client_request_outbox.push(Lib3hToClient::HandleSendDirectMessage(direct_message(3)));
    let later = run_tick(&mut state, 100_000_000).unwrap();
    assert_eq!(later.len(), 2);
    assert!(matches!(&later[0], Lib3hToClient::HandleSendDirectMessage(m) if m.request_id == "dm-2"));
    assert!(matches!(&later[1], Lib3hToClient::HandleSendDirectMessage(m) if m.request_id == "dm-3"));
    assert!(run_tick(&mut state, 200_000_000).unwrap().is_empty());
}

#[test]
fn store_request_ids_are_v4_uuids_of_the_random_bytes() {
    let mut state = Sim1hState::new(s("space"), s("agent"));
    let (tick, _) = RequestsTick::start();
    let (tick, _) = step(&mut state, tick, TickEvent::Clock(0));
    let mut incoming = AspectAddressMap::new();
    incoming.insert(s("e"), vec![s("aspect-4")]);
    let (tick, _) = step(&mut state, tick, TickEvent::Scanned(Ok((incoming, None))));
    let fetched = vec![Some(FetchedAspect { aspect: aspect(4), random_bytes: [0xffu8; 16] })];
    let (tick, _) = step(&mut state, tick, TickEvent::AspectsFetched(fetched));
    let (_, action) = step(&mut state, tick, TickEvent::InboxChecked(Ok(vec![])));
    let requests = match action {
        TickAction::Finished(Ok(r)) => r,
        other => panic!("{:?}", other),
    };
    let expected = uuid::Builder::from_bytes([0xffu8; 16])
        .set_variant(uuid::Variant::RFC4122)
        .set_version(uuid::Version::Random)
        .build()
        .to_string();
    assert_eq!(expected, "ffffffff-ffff-4fff-bfff-ffffffffffff");
    assert!(matches!(&requests[2], Lib3hToClient::HandleStoreEntryAspect(d) if d.request_id == expected));
}
