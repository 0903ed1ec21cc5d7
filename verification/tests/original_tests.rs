use sim1h::agent_read::agent_exists;
use sim1h::agent_read::AgentExists;
use sim1h::agent_read::AgentExistsEvent;
use sim1h::aspect_write::append_aspect_list;
use sim1h::aspect_write::aspect_list_to_attribute;
use sim1h::aspect_write::put_aspect;
use sim1h::aspect_write::retry_put_aspect;
use sim1h::protocol::EntryAspectData;
use sim1h::protocol::EntryData;
use sim1h::protocol::ProvidedEntryData;
use sim1h::schema::string_attribute_value;
use sim1h::schema::AttributeValue;
use sim1h::state::Sim1hState;
use std::collections::HashMap;

fn entry_address_fresh() -> String {
    format!("entry-{}", 42)
}

fn entry_aspect_data_fresh(n: u8) -> EntryAspectData {
    EntryAspectData {
        aspect_address: format!("aspect-{}", n),
        type_hint: "content".to_string(),
        aspect: vec![n, n + 1, n + 2],
        publish_ts: 1_000 + n as u64,
    }
}

fn aspect_list_fresh() -> Vec<EntryAspectData> {
    vec![entry_aspect_data_fresh(1), entry_aspect_data_fresh(2), entry_aspect_data_fresh(3)]
}

fn provided_entry_data_fresh(space_address: &str, entry_address: &str) -> ProvidedEntryData {
    ProvidedEntryData {
        space_address: space_address.to_string(),
        provider_agent_id: "agent-fresh".to_string(),
        entry: EntryData { entry_address: entry_address.to_string(), aspect_list: aspect_list_fresh() },
    }
}

fn lookup(table_exists: bool, item_exists: bool) -> AgentExists {
    let step = agent_exists(AgentExists::start(), AgentExistsEvent::TableChecked(Ok(table_exists)));
    match step {
        AgentExists::GetAgentItem => agent_exists(step, AgentExistsEvent::ItemFetched(Ok(item_exists))),
        other => other,
    }
}

#[test]
fn agent_exists_test() {
    // agent not exists if space not exists
    match lookup(false, false) {
        AgentExists::Done(Ok(false)) => {}
        AgentExists::Done(Ok(true)) => panic!("apparently agent exists before the space does"),
        other => panic!("{:?}", other),
    }
    // agent not exists if not join space
    match lookup(true, false) {
        AgentExists::Done(Ok(false)) => {}
        AgentExists::Done(Ok(true)) => panic!("agent exists before join"),
        other => panic!("{:?}", other),
    }
    // agent exists now
    match lookup(true, true) {
        AgentExists::Done(Ok(true)) => {}
        AgentExists::Done(Ok(false)) => panic!("agent not exists after join"),
        other => panic!("{:?}", other),
    }
}

#[test]
fn put_aspect_test() {
    let table_name = "put_aspect_test".to_string();
    let entry_aspect = entry_aspect_data_fresh(7);
    let request = put_aspect(&table_name, &entry_aspect);
    assert_eq!(request.table_name, table_name);
    assert_eq!(request.item.len(), 4);
    // a put that succeeds is not tried again
    let outcome: Result<(), String> = Ok(());
    assert!(!retry_put_aspect(&outcome));
}

#[test]
fn append_aspects_test() {
    let table_name = "append_aspects_test".to_string();
    let entry_address = entry_address_fresh();
    let aspect_list = aspect_list_fresh();

    let mut expected = HashMap::new();
    expected.insert("aspect_list".to_string(), aspect_list_to_attribute(&aspect_list));
    expected.insert("address".to_string(), string_attribute_value(&entry_address));

    // trash/idempotency loop
    for _ in 0..3 {
        let plan = append_aspect_list(&table_name, &entry_address, &aspect_list);
        assert_eq!(plan.puts.len(), aspect_list.len());
        let key: HashMap<String, AttributeValue> = plan.update.key.iter().cloned().collect();
        assert_eq!(expected["address"], key["address"]);
        let values: HashMap<String, AttributeValue> =
            plan.update.expression_attribute_values.iter().cloned().collect();
        let count = |v: &AttributeValue| match v {
            AttributeValue::SS(ss) => ss.iter().count(),
            _ => 0,
        };
        assert_eq!(count(&expected["aspect_list"]), count(&values[":aspects"]));
    }
}

#[test]
fn hold_entry_test() {
    let provided_entry_data = provided_entry_data_fresh("space-fresh", &entry_address_fresh());
    match Sim1hState::hold_entry(&provided_entry_data) {
        Ok(()) => {}
        Err(e) => {
            panic!("bad error {:?}", e);
        }
    }
}

#[test]
fn hold_entry_no_join_test() {
    let provided_entry_data = provided_entry_data_fresh("space-not-joined", &entry_address_fresh());
    match Sim1hState::hold_entry(&provided_entry_data) {
        Ok(()) => {}
        Err(e) => {
            panic!("bad error {:?}", e);
        }
    }
}
