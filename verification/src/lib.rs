//! Verified core of a DynamoDB-backed DHT: error mapping, the bookkeeping of
//! held entry aspects, the requests that the state machine hands to its client,
//! and the request shapes that it writes into DynamoDB.

pub mod error;
pub mod protocol;
pub mod aspect_map;
pub mod schema;
pub mod aspect_write;
pub mod agent_read;
pub mod state;
