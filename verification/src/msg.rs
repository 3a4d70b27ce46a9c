//! The frame of a message between peers: a fixed head and a body.

use vstd::prelude::*;

verus! {

/// The version of the wire protocol.
#[derive(Debug, PartialEq, Eq, Clone, Copy, Structural)]
pub enum Version {
    V0,
    V1,
    V2,
}

impl Version {
    /// The number of the version on the wire.
    pub fn value(&self) -> (r: u16)
        ensures
            r == match *self {
                Version::V0 => 0u16,
                Version::V1 => 1u16,
                Version::V2 => 2u16,
            },
    {
        match self {
            Version::V0 => 0,
            Version::V1 => 1,
            Version::V2 => 2,
        }
    }
}

/// The module that a message is for.
#[derive(Debug, PartialEq, Eq, Clone, Copy, Structural)]
pub enum Module {
    P2P,
    Sync,
}

impl Module {
    /// The number of the module on the wire.
    pub fn value(&self) -> (r: u8)
        ensures
            r == match *self {
                Module::P2P => 0u8,
                Module::Sync => 1u8,
            },
    {
        match self {
            Module::P2P => 0,
            Module::Sync => 1,
        }
    }
}

/// What a message of the sync module asks or tells.
#[derive(Debug, PartialEq, Eq, Clone, Copy, Structural)]
pub enum Action {
    StatusReq,
    StatusRes,
    HeadersReq,
    HeadersRes,
    BodiesReq,
    BodiesRes,
    BroadcastTx,
    BroadcastBlock,
}

impl Action {
    /// The number of the action on the wire.
    pub fn value(&self) -> (r: u8)
        ensures
            r == match *self {
                Action::StatusReq => 0u8,
                Action::StatusRes => 1u8,
                Action::HeadersReq => 2u8,
                Action::HeadersRes => 3u8,
                Action::BodiesReq => 4u8,
                Action::BodiesRes => 5u8,
                Action::BroadcastTx => 6u8,
                Action::BroadcastBlock => 7u8,
            },
    {
        match self {
            Action::StatusReq => 0,
            Action::StatusRes => 1,
            Action::HeadersReq => 2,
            Action::HeadersRes => 3,
            Action::BodiesReq => 4,
            Action::BodiesRes => 5,
            Action::BroadcastTx => 6,
            Action::BroadcastBlock => 7,
        }
    }
}

/// The head of a message.
#[derive(Debug, Clone, Copy, PartialEq, Eq, Structural)]
pub struct Head {
    pub ver: u16,
    pub ctrl: u8,
    pub action: u8,
    pub len: u32,
}

impl Head {
    /// The head of a message of the newest version for the peer-to-peer
    /// module, with an unknown action and no body.
    pub fn new() -> (r: Head)
        ensures
            r == (Head { ver: 2, ctrl: 0, action: 0xFF, len: 0 }),
    {
        Head { ver: Version::V2.value(), ctrl: Module::P2P.value(), action: 0xFF, len: 0 }
    }
}

/// A message: its head and its body.
#[derive(Debug, Clone, PartialEq, Eq)]
pub struct ChannelBuffer {
    pub head: Head,
    pub body: Vec<u8>,
}

impl ChannelBuffer {
    /// A message with a new head and an empty body.
    pub fn new() -> (r: ChannelBuffer)
        ensures
            r.head == (Head { ver: 2, ctrl: 0, action: 0xFF, len: 0 }),
            r.body@ == Seq::<u8>::empty(),
    {
        ChannelBuffer { head: Head::new(), body: Vec::new() }
    }
}

} // verus!
