//! Incoming and outgoing packet types of the Tibia 1.03 protocol.
//!
//! Each packet type travels on the wire as a numeric id. The ids are not fixed by this
//! library: a [`PacketIds`] table, supplied by the server's configuration, assigns them.

use vstd::prelude::*;

verus! {

/// The packets the server sends.
#[derive(Debug, Copy, Clone, PartialEq, Eq, Structural)]
pub enum PacketOut {
    Login,
    StatusMessage,
    MessageOfTheDay,
    EquippedItem,
    RemoveEquipped,
    DataWindow,
    UserList,
    UserInfo,
    OpenContainer,
    CloseContainer,
    Chat,
    MapData,
}

/// The packets the server receives.
#[derive(Debug, Copy, Clone, PartialEq, Eq, Structural)]
pub enum PacketIn {
    UserList,
    PlayerInfo,
    Walk,
    AutoWalk,
    LookAt,
    Chat,
    ChangeDirection,
    Comment,
    Push,
    UseItem,
    CloseContainer,
    RequestChangeData,
    SetData,
    Echo,
    Logout,
}

/// The position of an outgoing packet type in [`PacketIds::outgoing`].
pub open spec fn out_index(p: PacketOut) -> int {
    match p {
        PacketOut::Login => 0,
        PacketOut::StatusMessage => 1,
        PacketOut::MessageOfTheDay => 2,
        PacketOut::EquippedItem => 3,
        PacketOut::RemoveEquipped => 4,
        PacketOut::DataWindow => 5,
        PacketOut::UserList => 6,
        PacketOut::UserInfo => 7,
        PacketOut::OpenContainer => 8,
        PacketOut::CloseContainer => 9,
        PacketOut::Chat => 10,
        PacketOut::MapData => 11,
    }
}

/// The incoming packet type at a position of [`PacketIds::incoming`].
pub open spec fn in_at(i: int) -> PacketIn {
    if i == 0 {
        PacketIn::UserList
    } else if i == 1 {
        PacketIn::PlayerInfo
    } else if i == 2 {
        PacketIn::Walk
    } else if i == 3 {
        PacketIn::AutoWalk
    } else if i == 4 {
        PacketIn::LookAt
    } else if i == 5 {
        PacketIn::Chat
    } else if i == 6 {
        PacketIn::ChangeDirection
    } else if i == 7 {
        PacketIn::Comment
    } else if i == 8 {
        PacketIn::Push
    } else if i == 9 {
        PacketIn::UseItem
    } else if i == 10 {
        PacketIn::CloseContainer
    } else if i == 11 {
        PacketIn::RequestChangeData
    } else if i == 12 {
        PacketIn::SetData
    } else if i == 13 {
        PacketIn::Echo
    } else {
        PacketIn::Logout
    }
}

/// The wire ids of all packet types, in the order the enums list them.
#[derive(Debug, Copy, Clone)]
pub struct PacketIds {
    pub outgoing: [u8; 12],
    pub incoming: [u16; 15],
}

impl PacketIds {
    /// The wire id of an outgoing packet type.
    pub open spec fn spec_out(&self, p: PacketOut) -> u8 {
        self.outgoing@[out_index(p)]
    }

    /// The incoming packet type an id names: the first type listed with that id.
    pub open spec fn spec_decode(&self, id: u16) -> Option<PacketIn> {
        if exists|i: int| 0 <= i < 15 && self.incoming@[i] == id {
            let i = choose|i: int|
                0 <= i < 15 && self.incoming@[i] == id && forall|j: int| 0 <= j < i ==> self.incoming@[j] != id;
            Some(in_at(i))
        } else {
            None
        }
    }

    /// The wire id of an outgoing packet type.
    pub fn out(&self, p: PacketOut) -> (id: u8)
        ensures
            id == self.spec_out(p),
    {
        let i: usize = match p {
            PacketOut::Login => 0,
            PacketOut::StatusMessage => 1,
            PacketOut::MessageOfTheDay => 2,
            PacketOut::EquippedItem => 3,
            PacketOut::RemoveEquipped => 4,
            PacketOut::DataWindow => 5,
            PacketOut::UserList => 6,
            PacketOut::UserInfo => 7,
            PacketOut::OpenContainer => 8,
            PacketOut::CloseContainer => 9,
            PacketOut::Chat => 10,
            PacketOut::MapData => 11,
        };
        self.outgoing[i]
    }

    /// Decodes an incoming packet id; ids no type is listed with name no packet.
    pub fn decode(&self, id: u16) -> (p: Option<PacketIn>)
        ensures
            p == self.spec_decode(id),
    {
        let mut i: usize = 0;
        while i < 15
            invariant
                i <= 15,
                forall|j: int| 0 <= j < i ==> self.incoming@[j] != id,
            decreases 15 - i,
        {
            if self.incoming[i] == id {
                let p = match i {
                    0 => PacketIn::UserList,
                    1 => PacketIn::PlayerInfo,
                    2 => PacketIn::Walk,
                    3 => PacketIn::AutoWalk,
                    4 => PacketIn::LookAt,
                    5 => PacketIn::Chat,
                    6 => PacketIn::ChangeDirection,
                    7 => PacketIn::Comment,
                    8 => PacketIn::Push,
                    9 => PacketIn::UseItem,
                    10 => PacketIn::CloseContainer,
                    11 => PacketIn::RequestChangeData,
                    12 => PacketIn::SetData,
                    13 => PacketIn::Echo,
                    _ => PacketIn::Logout,
                };
                proof {
                    let k = choose|k: int|
                        0 <= k < 15 && self.incoming@[k] == id && forall|j: int| 0 <= j < k ==> self.incoming@[j] != id;
                    assert(k == i as int) by {
                        if k < i {
                        } else if k > i {
                            assert(self.incoming@[i as int] != id);
                        }
                    }
                }
                return Some(p);
            }
            i = i + 1;
        }
        None
    }
}

} // verus!
