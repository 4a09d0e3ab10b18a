//! The value shapes responses are built from. The transport layer turns
//! these into wire responses; nothing here touches the wire itself.

use vstd::prelude::*;

verus! {

/// A plain message for the caller; never carries internal error detail.
pub struct MReturn {
    pub message: String,
}

/// The payloads a successful response can carry.
pub enum GenericResponse {
    Token { token: String },
    Pre { name: String },
    Credits { credits: i64 },
    Container { id: String, port: u16 },
}

/// A request that names a container.
pub struct ContainerName {
    pub name: String,
}

impl MReturn {
    pub fn new(message: String) -> (r: Self)
        ensures
            r.message == message,
    {
        MReturn { message }
    }
}

} // verus!
