//! The decisions that the handlers of broadcast messages make, apart from
//! the network and the chain that they talk to.

use crate::msg::{Action, ChannelBuffer, Head, Module, Version};
use vstd::prelude::*;

verus! {

/// A new block that lies further back than this many blocks is ignored.
pub const MAX_NEW_BLOCK_AGE: u64 = 20;

/// A broadcast of transactions goes to at most this many nodes.
pub const MAX_BROADCAST_NODES: usize = 11;

/// A peer that broadcast transactions less than this many milliseconds ago
/// is ignored.
pub const MIN_BROADCAST_INTERVAL_MS: u64 = 20;

/// Whether the node is still syncing: its best block lies more than four
/// blocks behind the best block of the network. Broadcast messages are
/// ignored while it is.
pub fn is_syncing(best_block_number: u64, network_best_number: u64) -> (r: bool)
    ensures
        r == (best_block_number + 4 < network_best_number),
{
    network_best_number > 4 && best_block_number < network_best_number - 4
}

/// Whether a broadcast block is too old to be imported: it lies more than
/// `MAX_NEW_BLOCK_AGE` blocks behind the last imported one.
pub fn is_ancient_block(last_imported_number: u64, number: u64) -> (r: bool)
    ensures
        r == (last_imported_number - number > MAX_NEW_BLOCK_AGE),
{
    last_imported_number > number && last_imported_number - number > MAX_NEW_BLOCK_AGE
}

/// Whether a peer broadcasts too often: its last broadcast was less than
/// `MIN_BROADCAST_INTERVAL_MS` milliseconds ago.
pub fn is_frequent_broadcast(elapsed_ms: u64) -> (r: bool)
    ensures
        r == (elapsed_ms < MIN_BROADCAST_INTERVAL_MS),
{
    elapsed_ms < MIN_BROADCAST_INTERVAL_MS
}

/// The number of nodes that a broadcast of transactions is sent to, out of
/// `active` nodes: all of them, up to `MAX_BROADCAST_NODES`.
pub fn broadcast_targets(active: usize) -> (r: usize)
    ensures
        r == if active <= MAX_BROADCAST_NODES {
            active
        } else {
            MAX_BROADCAST_NODES
        },
{
    if active <= MAX_BROADCAST_NODES {
        active
    } else {
        MAX_BROADCAST_NODES
    }
}

/// A message of the sync module with the given action and body, in the
/// first version of the protocol; the head tells the length of the body,
/// cut to 32 bits.
pub fn request(action: Action, body: Vec<u8>) -> (r: ChannelBuffer)
    ensures
        r.head == (Head {
            ver: 0,
            ctrl: 1,
            action: match action {
                Action::StatusReq => 0u8,
                Action::StatusRes => 1u8,
                Action::HeadersReq => 2u8,
                Action::HeadersRes => 3u8,
                Action::BodiesReq => 4u8,
                Action::BodiesRes => 5u8,
                Action::BroadcastTx => 6u8,
                Action::BroadcastBlock => 7u8,
            },
            len: (body@.len() % 0x1_0000_0000) as u32,
        }),
        r.body@ == body@,
{
    let len: u32 = (body.len() as u64 % 0x1_0000_0000u64) as u32;
    ChannelBuffer {
        head: Head {
            ver: Version::V0.value(),
            ctrl: Module::Sync.value(),
            action: action.value(),
            len,
        },
        body,
    }
}

} // verus!
