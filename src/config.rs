use vstd::prelude::*;

verus! {

/// A topic whose messages are structured binary (protobuf) records of the
/// fully-qualified message type `proto_type`.
pub struct ProtobufSubscriptioin {
    pub topic: String,
    pub proto_type: String,
}

/// A topic whose messages are JSON text, advertised under `message_type` with the
/// named JSON schema (or the generic one when `json_schema_name` is absent).
pub struct JsonSubscription {
    pub topic: String,
    pub message_type: String,
    pub json_schema_name: Option<String>,
    pub latched: Option<bool>,
}

impl JsonSubscription {
    /// Whether the channel redelivers its last message to newly joined viewers.
    pub fn is_latched(&self) -> (r: bool)
        ensures
            r == (self.latched == Some(true)),
    {
        match self.latched {
            Some(b) => b,
            None => false,
        }
    }
}

} // verus!
