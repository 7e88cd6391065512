//! Shared constants and enumerations used across the server.

use vstd::prelude::*;

verus! {

/// Describes how a tile's object stack should be updated when sending map data to the client.
#[derive(Copy, Clone, Debug, PartialEq, Eq, Structural)]
pub enum ObjectUpdateType {
    Remove,
    Add,
    Update,
}

impl ObjectUpdateType {
    /// The protocol number: 0 = remove, 1 = add, 2 = update.
    pub fn to_u8(self) -> (v: u8)
        ensures
            v == (match self {
                ObjectUpdateType::Remove => 0u8,
                ObjectUpdateType::Add => 1u8,
                ObjectUpdateType::Update => 2u8,
            }),
    {
        match self {
            ObjectUpdateType::Remove => 0,
            ObjectUpdateType::Add => 1,
            ObjectUpdateType::Update => 2,
        }
    }

    /// Decodes a protocol number; only 0, 1 and 2 name an update type.
    pub fn from_u8(v: u8) -> (t: Option<ObjectUpdateType>)
        ensures
            v == 0 ==> t == Some(ObjectUpdateType::Remove),
            v == 1 ==> t == Some(ObjectUpdateType::Add),
            v == 2 ==> t == Some(ObjectUpdateType::Update),
            v > 2 ==> t is None,
    {
        match v {
            0 => Some(ObjectUpdateType::Remove),
            1 => Some(ObjectUpdateType::Add),
            2 => Some(ObjectUpdateType::Update),
            _ => None,
        }
    }
}

} // verus!
