//! The channel of each mini-protocol.

use vstd::prelude::*;

verus! {

pub const HANDSHAKE: u16 = 0;

pub const CHAINSYNC_N2N: u16 = 2;

pub const BLOCKFETCH: u16 = 3;

pub const TX_SUBMISSION: u16 = 4;

pub const CHAINSYNC_N2C: u16 = 5;

pub const LOCAL_TX_SUBMISSION: u16 = 6;

pub const LOCAL_STATE_QUERY: u16 = 7;

pub const KEEP_ALIVE: u16 = 8;

pub const LOCAL_TX_MONITOR: u16 = 9;

pub const PEER_SHARING: u16 = 10;

} // verus!
