//! Wire codec for the single message of the netlink connector protocol.

pub mod protocol;

pub use protocol::{ConnectorId, ConnectorMessage, DeserializeError, HEADER_LEN, INVALID_DATA_LENGTH, TRUNCATED_HEADER};
