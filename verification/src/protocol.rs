use vstd::prelude::*;

verus! {

/// Asks the client for the entries that an agent authors or gossips in a space.
#[derive(Debug, Clone)]
pub struct GetListData {
    pub space_address: String,
    pub provider_agent_id: String,
    pub request_id: String,
}

/// One aspect of an entry: its address, a type hint and its content.
#[derive(Debug, Clone)]
pub struct EntryAspectData {
    pub aspect_address: String,
    pub type_hint: String,
    pub aspect: Vec<u8>,
    pub publish_ts: u64,
}

/// An entry with its aspects.
#[derive(Debug, Clone)]
pub struct EntryData {
    pub entry_address: String,
    pub aspect_list: Vec<EntryAspectData>,
}

/// An entry that an agent provides to a space.
#[derive(Debug, Clone)]
pub struct ProvidedEntryData {
    pub space_address: String,
    pub provider_agent_id: String,
    pub entry: EntryData,
}

/// Asks the client to store one aspect of an entry.
#[derive(Debug, Clone)]
pub struct StoreEntryAspectData {
    pub request_id: String,
    pub space_address: String,
    pub provider_agent_id: String,
    pub entry_address: String,
    pub entry_aspect: EntryAspectData,
}

/// A direct message between two agents of a space.
#[derive(Debug, Clone)]
pub struct DirectMessageData {
    pub space_address: String,
    pub request_id: String,
    pub to_agent_id: String,
    pub from_agent_id: String,
    pub content: Vec<u8>,
}

/// The entry addresses that an agent holds, each with its aspect addresses.
#[derive(Debug, Clone)]
pub struct EntryListData {
    pub space_address: String,
    pub provider_agent_id: String,
    pub request_id: String,
    pub address_map: Vec<(String, Vec<String>)>,
}

/// A request from the DHT to its client.
#[derive(Debug, Clone)]
pub enum Lib3hToClient {
    HandleGetAuthoringEntryList(GetListData),
    HandleGetGossipingEntryList(GetListData),
    HandleStoreEntryAspect(StoreEntryAspectData),
    SendDirectMessageResult(DirectMessageData),
    HandleSendDirectMessage(DirectMessageData),
}

/// A response from the client to a request of the DHT.
#[derive(Debug, Clone)]
pub enum ClientToLib3hResponse {
    HandleGetAuthoringEntryListResult(EntryListData),
    HandleGetGossipingEntryListResult(EntryListData),
    HandleSendDirectMessageResult(DirectMessageData),
}

} // verus!
