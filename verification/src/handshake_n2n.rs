//! The handshake between nodes: the client proposes versions, the server
//! accepts one or refuses.

use crate::cbor::{
    array_from, array_to, entries_of, from_bool, from_u64, is_array_of, is_bool, is_u64, items_of,
    to_bool, to_u64, Cbor, CborCodec, Undecodable,
};
use crate::frame::{Direction, Id};
use crate::protocol::Protocol;
use crate::protocol_numbers;
use crate::transitions::{next_state, Context, Transition};
use vstd::prelude::*;

verus! {

/// The network a node belongs to, such as 764824073 for the main network.
#[derive(Clone, Copy, Debug, PartialEq, Eq, Structural)]
pub struct Magic(pub u64);

/// Whether a node only opens conversations or also accepts them.
#[derive(Clone, Copy, Debug, PartialEq, Eq, Structural)]
pub enum DiffusionMode {
    InitiatorOnly,
    InitiatorAndResponder,
}

impl DiffusionMode {
    /// The boolean that stands for the mode on the wire.
    pub open spec fn flag(self) -> bool {
        self is InitiatorAndResponder
    }

    /// The boolean that stands for the mode on the wire: `false` for a node
    /// that only initiates.
    pub fn to_bool(self) -> (b: bool)
        ensures
            b == self.flag(),
    {
        match self {
            DiffusionMode::InitiatorOnly => false,
            DiffusionMode::InitiatorAndResponder => true,
        }
    }

    /// The mode that `b` stands for on the wire.
    pub fn from_bool(b: bool) -> (mode: DiffusionMode)
        ensures
            mode.flag() == b,
    {
        if b {
            DiffusionMode::InitiatorAndResponder
        } else {
            DiffusionMode::InitiatorOnly
        }
    }
}

/// Whether a node tells others of the peers it knows.
#[derive(Clone, Copy, Debug, PartialEq, Eq, Structural)]
pub enum PeerSharing {
    Disabled,
    Enabled,
}

impl PeerSharing {
    /// The integer that stands for the setting on the wire.
    pub open spec fn number(self) -> u64 {
        match self {
            PeerSharing::Disabled => 0,
            PeerSharing::Enabled => 1,
        }
    }

    /// The integer that stands for the setting on the wire.
    pub fn to_integer(self) -> (v: u64)
        ensures
            v == self.number(),
    {
        match self {
            PeerSharing::Disabled => 0,
            PeerSharing::Enabled => 1,
        }
    }

    /// The setting that `v` stands for; only 0 and 1 stand for one.
    pub fn from_integer(v: u64) -> (r: Option<PeerSharing>)
        ensures
            forall|setting: PeerSharing| r == Some(setting) <==> setting.number() == v,
    {
        if v == 0 {
            Some(PeerSharing::Disabled)
        } else if v == 1 {
            Some(PeerSharing::Enabled)
        } else {
            None
        }
    }
}

/// What a node says of itself when it proposes or accepts a version.
#[derive(Clone, Debug, PartialEq, Eq)]
pub struct HandshakeNodeData {
    pub magic: Magic,
    pub diffusion: DiffusionMode,
    pub peer_sharing: PeerSharing,
    pub query: bool,
}

/// Why a proposal was refused.
#[derive(Clone, Debug, PartialEq, Eq)]
pub enum RefuseReason {
    /// None of the proposed versions is spoken; with those that are.
    VersionMismatch(Versions),
    /// The data proposed with this version could not be decoded.
    HandshakeDecodeError(Version, String),
    /// This version was refused, for the reason given.
    Refused(Version, String),
}

/// The versions a node proposes, each with what it says of itself at that version.
#[derive(Clone, Debug, PartialEq, Eq)]
pub struct VersionProposal(pub Vec<(Version, HandshakeNodeData)>);

/// A list of versions.
#[derive(Clone, Debug, PartialEq, Eq)]
pub struct Versions(pub Vec<Version>);

/// The versions of the protocol suite that are known.
#[derive(Clone, Copy, Debug, PartialEq, Eq, PartialOrd, Ord, Structural)]
pub enum Version {
    V6,
    V7,
    V8,
    V9,
    V10,
    V11,
    V13,
    V14,
}

impl Version {
    /// The integer that stands for the version on the wire.
    pub open spec fn number(self) -> u64 {
        match self {
            Version::V6 => 6,
            Version::V7 => 7,
            Version::V8 => 8,
            Version::V9 => 9,
            Version::V10 => 10,
            Version::V11 => 11,
            Version::V13 => 13,
            Version::V14 => 14,
        }
    }

    /// The known versions, oldest first.
    pub fn known() -> (all: [Version; 8])
        ensures
            all@ == seq![Version::V6, Version::V7, Version::V8, Version::V9, Version::V10, Version::V11, Version::V13, Version::V14],
            forall|version: Version| all@.contains(version),
    {
        let all = [
            Version::V6,
            Version::V7,
            Version::V8,
            Version::V9,
            Version::V10,
            Version::V11,
            Version::V13,
            Version::V14,
        ];
        assert(all@ =~= seq![Version::V6, Version::V7, Version::V8, Version::V9, Version::V10, Version::V11, Version::V13, Version::V14]);
        assert forall|version: Version| all@.contains(version) by {
            match version {
                Version::V6 => assert(all@[0] == version),
                Version::V7 => assert(all@[1] == version),
                Version::V8 => assert(all@[2] == version),
                Version::V9 => assert(all@[3] == version),
                Version::V10 => assert(all@[4] == version),
                Version::V11 => assert(all@[5] == version),
                Version::V13 => assert(all@[6] == version),
                Version::V14 => assert(all@[7] == version),
            }
        }
        all
    }

    /// The integer that stands for the version on the wire.
    pub fn to_integer(self) -> (v: u64)
        ensures
            v == self.number(),
    {
        match self {
            Version::V6 => 6,
            Version::V7 => 7,
            Version::V8 => 8,
            Version::V9 => 9,
            Version::V10 => 10,
            Version::V11 => 11,
            Version::V13 => 13,
            Version::V14 => 14,
        }
    }

    /// The known version that `v` stands for, if there is one.
    pub fn from_integer(v: u64) -> (r: Option<Version>)
        ensures
            forall|version: Version| r == Some(version) <==> version.number() == v,
    {
        let all = Version::known();
        let mut i: usize = 0;
        while i < all.len()
            invariant
                i <= all@.len(),
                forall|version: Version| all@.contains(version),
                forall|j: int| 0 <= j < i ==> (#[trigger] all@[j]).number() != v,
            decreases all@.len() - i,
        {
            let k = all[i];
            if k.to_integer() == v {
                return Some(k);
            }
            i += 1;
        }
        assert forall|version: Version| version.number() != v by {
            assert(all@.contains(version));
        }
        None
    }
}

/// The magic is written as its integer.
impl CborCodec for Magic {
    open spec fn encodes(self, tree: Cbor) -> bool {
        self.0.encodes(tree)
    }

    fn to_cbor(&self) -> (tree: Cbor) {
        self.0.to_cbor()
    }

    fn from_cbor(tree: &Cbor) -> (r: Result<Magic, Undecodable>) {
        match <u64 as CborCodec>::from_cbor(tree) {
            Ok(value) => {
                let read = Magic(value);
                assert(read.encodes(*tree));
                Ok(read)
            },
            Err(e) => {
                assert forall|value: Magic| !value.encodes(*tree) by {}
                Err(e)
            },
        }
    }
}

/// The diffusion mode is written as a boolean: true for a node that also
/// accepts conversations.
impl CborCodec for DiffusionMode {
    open spec fn encodes(self, tree: Cbor) -> bool {
        is_bool(self.flag(), tree)
    }

    fn to_cbor(&self) -> (tree: Cbor) {
        from_bool(self.to_bool())
    }

    fn from_cbor(tree: &Cbor) -> (r: Result<DiffusionMode, Undecodable>) {
        match to_bool(tree) {
            Ok(b) => {
                let mode = DiffusionMode::from_bool(b);
                assert(mode.encodes(*tree));
                Ok(mode)
            },
            Err(e) => {
                assert forall|value: DiffusionMode| !value.encodes(*tree) by {}
                Err(e)
            },
        }
    }
}

/// The peer sharing setting is written as an integer: 0 or 1.
impl CborCodec for PeerSharing {
    open spec fn encodes(self, tree: Cbor) -> bool {
        is_u64(self.number(), tree)
    }

    fn to_cbor(&self) -> (tree: Cbor) {
        from_u64(self.to_integer())
    }

    fn from_cbor(tree: &Cbor) -> (r: Result<PeerSharing, Undecodable>) {
        let v = match to_u64(tree) {
            Ok(value) => value,
            Err(e) => {
                assert forall|value: PeerSharing| !value.encodes(*tree) by {}
                return Err(e);
            },
        };
        match PeerSharing::from_integer(v) {
            Some(setting) => Ok(setting),
            None => {
                assert forall|value: PeerSharing| !value.encodes(*tree) by {
                    assert(value.number() != v);
                }
                Err(Undecodable)
            },
        }
    }
}

/// What a node says of itself is written as an array of its four parts.
impl CborCodec for HandshakeNodeData {
    open spec fn encodes(self, tree: Cbor) -> bool {
        tree matches Cbor::Array(items) && items@.len() == 4 && self.magic.encodes(items@[0]) && self.diffusion.encodes(items@[1]) && self.peer_sharing.encodes(items@[2]) && self.query.encodes(items@[3])
    }

    fn to_cbor(&self) -> (tree: Cbor) {
        let mut items: Vec<Cbor> = Vec::new();
        items.push(self.magic.to_cbor());
        items.push(self.diffusion.to_cbor());
        items.push(self.peer_sharing.to_cbor());
        items.push(self.query.to_cbor());
        Cbor::Array(items)
    }

    fn from_cbor(tree: &Cbor) -> (r: Result<HandshakeNodeData, Undecodable>) {
        let items = match items_of(tree) {
            Ok(items) => items,
            Err(e) => {
                assert forall|value: HandshakeNodeData| !value.encodes(*tree) by {}
                return Err(e);
            },
        };
        if items.len() != 4 {
            assert forall|value: HandshakeNodeData| !value.encodes(*tree) by {}
            return Err(Undecodable);
        }
        let f0 = match Magic::from_cbor(&items[0]) {
            Ok(value) => value,
            Err(e) => {
                assert forall|value: HandshakeNodeData| !value.encodes(*tree) by {}
                return Err(e);
            },
        };
        let f1 = match DiffusionMode::from_cbor(&items[1]) {
            Ok(value) => value,
            Err(e) => {
                assert forall|value: HandshakeNodeData| !value.encodes(*tree) by {}
                return Err(e);
            },
        };
        let f2 = match PeerSharing::from_cbor(&items[2]) {
            Ok(value) => value,
            Err(e) => {
                assert forall|value: HandshakeNodeData| !value.encodes(*tree) by {}
                return Err(e);
            },
        };
        let f3 = match <bool as CborCodec>::from_cbor(&items[3]) {
            Ok(value) => value,
            Err(e) => {
                assert forall|value: HandshakeNodeData| !value.encodes(*tree) by {}
                return Err(e);
            },
        };
        let read = HandshakeNodeData { magic: f0, diffusion: f1, peer_sharing: f2, query: f3 };
        assert(read.encodes(*tree));
        Ok(read)
    }
}

/// A list of versions is written as the array of the versions.
impl CborCodec for Versions {
    open spec fn encodes(self, tree: Cbor) -> bool {
        is_array_of(self.0@, tree)
    }

    fn to_cbor(&self) -> (tree: Cbor) {
        array_from(&self.0)
    }

    fn from_cbor(tree: &Cbor) -> (r: Result<Versions, Undecodable>) {
        match array_to::<Version>(tree) {
            Ok(value) => {
                let read = Versions(value);
                assert(read.encodes(*tree));
                Ok(read)
            },
            Err(e) => {
                assert forall|value: Versions| !value.encodes(*tree) by {}
                Err(e)
            },
        }
    }
}

/// A reason is written as an array: the number of its kind, then what it carries.
impl CborCodec for RefuseReason {
    open spec fn encodes(self, tree: Cbor) -> bool {
        tree matches Cbor::Array(items) && match self {
            RefuseReason::VersionMismatch(f0) => items@.len() == 2 && is_u64(0, items@[0]) && f0.encodes(items@[1]),
            RefuseReason::HandshakeDecodeError(f0, f1) => items@.len() == 3 && is_u64(1, items@[0]) && f0.encodes(items@[1]) && f1.encodes(items@[2]),
            RefuseReason::Refused(f0, f1) => items@.len() == 3 && is_u64(2, items@[0]) && f0.encodes(items@[1]) && f1.encodes(items@[2]),
        }
    }

    fn to_cbor(&self) -> (tree: Cbor) {
        let mut items: Vec<Cbor> = Vec::new();
        match self {
            RefuseReason::VersionMismatch(f0) => {
                items.push(from_u64(0));
                items.push(f0.to_cbor());
            },
            RefuseReason::HandshakeDecodeError(f0, f1) => {
                items.push(from_u64(1));
                items.push(f0.to_cbor());
                items.push(f1.to_cbor());
            },
            RefuseReason::Refused(f0, f1) => {
                items.push(from_u64(2));
                items.push(f0.to_cbor());
                items.push(f1.to_cbor());
            },
        }
        Cbor::Array(items)
    }

    fn from_cbor(tree: &Cbor) -> (r: Result<RefuseReason, Undecodable>) {
        let items = match items_of(tree) {
            Ok(items) => items,
            Err(e) => {
                assert forall|value: RefuseReason| !value.encodes(*tree) by {}
                return Err(e);
            },
        };
        if items.len() == 0 {
            assert forall|value: RefuseReason| !value.encodes(*tree) by {}
            return Err(Undecodable);
        }
        let tag = match to_u64(&items[0]) {
            Ok(tag) => tag,
            Err(e) => {
                assert forall|value: RefuseReason| !value.encodes(*tree) by {}
                return Err(e);
            },
        };
        if tag == 0 {
            if items.len() != 2 {
                assert forall|value: RefuseReason| !value.encodes(*tree) by {}
                return Err(Undecodable);
            }
            let f0 = match Versions::from_cbor(&items[1]) {
                Ok(value) => value,
                Err(e) => {
                    assert forall|value: RefuseReason| !value.encodes(*tree) by {}
                    return Err(e);
                },
            };
            let read = RefuseReason::VersionMismatch(f0);
            assert(read.encodes(*tree));
            Ok(read)
        } else if tag == 1 {
            if items.len() != 3 {
                assert forall|value: RefuseReason| !value.encodes(*tree) by {}
                return Err(Undecodable);
            }
            let f0 = match Version::from_cbor(&items[1]) {
                Ok(value) => value,
                Err(e) => {
                    assert forall|value: RefuseReason| !value.encodes(*tree) by {}
                    return Err(e);
                },
            };
            let f1 = match <String as CborCodec>::from_cbor(&items[2]) {
                Ok(value) => value,
                Err(e) => {
                    assert forall|value: RefuseReason| !value.encodes(*tree) by {}
                    return Err(e);
                },
            };
            let read = RefuseReason::HandshakeDecodeError(f0, f1);
            assert(read.encodes(*tree));
            Ok(read)
        } else if tag == 2 {
            if items.len() != 3 {
                assert forall|value: RefuseReason| !value.encodes(*tree) by {}
                return Err(Undecodable);
            }
            let f0 = match Version::from_cbor(&items[1]) {
                Ok(value) => value,
                Err(e) => {
                    assert forall|value: RefuseReason| !value.encodes(*tree) by {}
                    return Err(e);
                },
            };
            let f1 = match <String as CborCodec>::from_cbor(&items[2]) {
                Ok(value) => value,
                Err(e) => {
                    assert forall|value: RefuseReason| !value.encodes(*tree) by {}
                    return Err(e);
                },
            };
            let read = RefuseReason::Refused(f0, f1);
            assert(read.encodes(*tree));
            Ok(read)
        } else {
            assert forall|value: RefuseReason| !value.encodes(*tree) by {}
            Err(Undecodable)
        }
    }
}

impl VersionProposal {
    /// The message that proposes these versions, as a tree.
    pub fn propose_data(self) -> (tree: Cbor)
        ensures
            Message::ProposeVersions(self).encodes(tree),
    {
        let handshake_msg = Message::ProposeVersions(self);
        handshake_msg.to_cbor()
    }
}

/// A version is written as its integer.
impl CborCodec for Version {
    open spec fn encodes(self, tree: Cbor) -> bool {
        is_u64(self.number(), tree)
    }

    fn to_cbor(&self) -> (tree: Cbor) {
        from_u64(self.to_integer())
    }

    fn from_cbor(tree: &Cbor) -> (r: Result<Version, Undecodable>) {
        let ver = match to_u64(tree) {
            Ok(value) => value,
            Err(e) => {
                assert forall|value: Version| !value.encodes(*tree) by {}
                return Err(e);
            },
        };
        match Version::from_integer(ver) {
            Some(version) => Ok(version),
            None => {
                assert forall|value: Version| !value.encodes(*tree) by {
                    assert(value.number() != ver);
                }
                Err(Undecodable)
            },
        }
    }
}

/// A proposal is written as a map: for each version, what the node says of
/// itself at that version, in the order of the proposal.
impl CborCodec for VersionProposal {
    open spec fn encodes(self, tree: Cbor) -> bool {
        tree matches Cbor::Entries(entries) && entries@.len() == self.0@.len() && forall|i: int|
            0 <= i < entries@.len() ==> (#[trigger] self.0@[i]).0.encodes(entries@[i].0)
                && self.0@[i].1.encodes(entries@[i].1)
    }

    fn to_cbor(&self) -> (tree: Cbor) {
        let mut entries: Vec<(Cbor, Cbor)> = Vec::new();
        let mut i: usize = 0;
        while i < self.0.len()
            invariant
                i <= self.0@.len(),
                entries@.len() == i,
                forall|j: int|
                    0 <= j < i ==> (#[trigger] self.0@[j]).0.encodes(entries@[j].0)
                        && self.0@[j].1.encodes(entries@[j].1),
            decreases self.0@.len() - i,
        {
            let key = self.0[i].0.to_cbor();
            let value = self.0[i].1.to_cbor();
            entries.push((key, value));
            i += 1;
        }
        Cbor::Entries(entries)
    }

    fn from_cbor(tree: &Cbor) -> (r: Result<VersionProposal, Undecodable>) {
        let entries = match entries_of(tree) {
            Ok(entries) => entries,
            Err(e) => {
                assert forall|value: VersionProposal| !value.encodes(*tree) by {}
                return Err(e);
            },
        };
        let mut out: Vec<(Version, HandshakeNodeData)> = Vec::new();
        let mut i: usize = 0;
        while i < entries.len()
            invariant
                i <= entries@.len(),
                out@.len() == i,
                *tree == Cbor::Entries(*entries),
                forall|j: int|
                    0 <= j < i ==> (#[trigger] out@[j]).0.encodes(entries@[j].0)
                        && out@[j].1.encodes(entries@[j].1),
            decreases entries@.len() - i,
        {
            let key = match Version::from_cbor(&entries[i].0) {
                Ok(value) => value,
                Err(e) => {
                    assert forall|other: VersionProposal| !other.encodes(*tree) by {
                        if other.encodes(*tree) {
                            assert(other.0@[i as int].0.encodes(entries@[i as int].0));
                        }
                    }
                    return Err(e);
                },
            };
            let value = match HandshakeNodeData::from_cbor(&entries[i].1) {
                Ok(value) => value,
                Err(e) => {
                    assert forall|other: VersionProposal| !other.encodes(*tree) by {
                        if other.encodes(*tree) {
                            assert(other.0@[i as int].1.encodes(entries@[i as int].1));
                        }
                    }
                    return Err(e);
                },
            };
            out.push((key, value));
            i += 1;
        }
        let proposal = VersionProposal(out);
        assert(proposal.encodes(*tree));
        Ok(proposal)
    }
}

/// The states of the handshake protocol.
#[derive(Clone, Copy, Debug, PartialEq, Eq, Structural)]
pub enum State {
    /// The client proposes the versions it speaks.
    Propose,
    /// The server accepts one version or refuses.
    Confirm,
    /// The handshake is over.
    Done,
}

impl Default for State {
    /// The state in which every conversation begins.
    fn default() -> (s: State)
        ensures
            s == State::Propose,
    {
        State::Propose
    }
}

/// The messages of the handshake protocol.
#[derive(Clone, Debug, PartialEq, Eq)]
pub enum Message {
    /// The versions the client speaks.
    ProposeVersions(VersionProposal),
    /// The version the server chose, with what it says of itself.
    AcceptVersion(Version, HandshakeNodeData),
    /// The server refuses the connection.
    Refuse(RefuseReason),
    /// The versions the server speaks, in answer to a query.
    QueryReply(VersionProposal),
}

impl Message {
    /// Whether the message is declared as one that the client sends.
    pub open spec fn client_sent(&self) -> bool {
        self is ProposeVersions
    }

    /// The side that is declared to send the message: the initiator for a
    /// client's message, the responder for any other.
    pub open spec fn declared_sender(&self) -> Direction {
        if self.client_sent() {
            Direction::Initiator
        } else {
            Direction::Responder
        }
    }

    /// The side that is declared to send the message.
    pub fn sender(&self) -> (side: Direction)
        ensures
            side == self.declared_sender(),
    {
        match self {
            Message::ProposeVersions(..) => Direction::Initiator,
            Message::AcceptVersion(..) => Direction::Responder,
            Message::Refuse(..) => Direction::Responder,
            Message::QueryReply(..) => Direction::Responder,
        }
    }

    /// The state that this message leads to from `current_state`, or `None`
    /// where the message is not allowed there.
    pub fn can_transition(&self, current_state: State) -> (next: Option<State>)
        ensures
            forall|end: State| next == Some(end) <==> current_state.allows(self, end),
    {
        match self {
            Message::ProposeVersions(..) => match current_state {
                State::Propose => Some(State::Confirm),
                _ => None,
            },
            Message::AcceptVersion(..) => match current_state {
                State::Confirm => Some(State::Done),
                _ => None,
            },
            Message::Refuse(..) => match current_state {
                State::Confirm => Some(State::Done),
                _ => None,
            },
            Message::QueryReply(..) => match current_state {
                State::Confirm => Some(State::Done),
                _ => None,
            },
        }
    }
}

impl Protocol for State {
    type Message = Message;

    open spec fn allows(self, message: &Message, end: State) -> bool {
        ||| self is Propose && message is ProposeVersions && end is Confirm
        ||| self is Confirm && message is AcceptVersion && end is Done
        ||| self is Confirm && message is Refuse && end is Done
        ||| self is Confirm && message is QueryReply && end is Done
    }

    open spec fn agency(self) -> Option<Direction> {
        match self {
            State::Propose => Some(Direction::Initiator),
            State::Confirm => Some(Direction::Responder),
            State::Done => None,
        }
    }

    open spec fn number() -> u16 {
        protocol_numbers::HANDSHAKE
    }

    open spec fn max_size() -> usize {
        2048
    }

    fn protocol_number() -> (id: Id) {
        Id::new(protocol_numbers::HANDSHAKE)
    }

    fn message_max_size() -> (size: usize) {
        2048
    }

    fn transition(self, message: &Message) -> (next: Option<State>) {
        message.can_transition(self)
    }

    fn direction(self) -> (side: Option<Direction>) {
        match self {
            State::Propose => Some(Direction::Initiator),
            State::Confirm => Some(Direction::Responder),
            State::Done => None,
        }
    }
}

/// What the server may answer to `ProposeVersions`.
#[derive(Clone, Debug, PartialEq, Eq)]
pub enum ProposeVersionsRet {
    AcceptVersion(Version, HandshakeNodeData),
    Refuse(RefuseReason),
    QueryReply(VersionProposal),
}

impl ProposeVersionsRet {
    /// The message that this is.
    pub open spec fn message(self) -> Message {
        match self {
            ProposeVersionsRet::AcceptVersion(param0, param1) => Message::AcceptVersion(param0, param1),
            ProposeVersionsRet::Refuse(param0) => Message::Refuse(param0),
            ProposeVersionsRet::QueryReply(param0) => Message::QueryReply(param0),
        }
    }
}

impl From<ProposeVersionsRet> for Message {
    fn from(r: ProposeVersionsRet) -> (m: Message) {
        match r {
            ProposeVersionsRet::AcceptVersion(param0, param1) => Message::AcceptVersion(param0, param1),
            ProposeVersionsRet::Refuse(param0) => Message::Refuse(param0),
            ProposeVersionsRet::QueryReply(param0) => Message::QueryReply(param0),
        }
    }
}

impl vstd::std_specs::convert::FromSpecImpl<ProposeVersionsRet> for Message {
    open spec fn obeys_from_spec() -> bool {
        true
    }

    open spec fn from_spec(r: ProposeVersionsRet) -> Message {
        r.message()
    }
}

/// Picks out the messages that may answer `ProposeVersions`: those that are allowed
/// in state `Confirm`.
pub fn client_propose_versions_ret(message: Message) -> (r: Option<ProposeVersionsRet>)
    ensures
        r is Some <==> exists|end: State| State::Confirm.allows(&message, end),
        r matches Some(picked) ==> picked.message() == message,
{
    let ghost received = message;
    match message {
        Message::AcceptVersion(param0, param1) => {
            assert(State::Confirm.allows(&received, State::Done));
            Some(ProposeVersionsRet::AcceptVersion(param0, param1))
        },
        Message::Refuse(param0) => {
            assert(State::Confirm.allows(&received, State::Done));
            Some(ProposeVersionsRet::Refuse(param0))
        },
        Message::QueryReply(param0) => {
            assert(State::Confirm.allows(&received, State::Done));
            Some(ProposeVersionsRet::QueryReply(param0))
        },
        _ => None,
    }
}

/// Picks out the one message that the client may send in state `Propose`,
/// `ProposeVersions`, and gives what it carries.
pub fn server_propose_message_filter(message: Message) -> (r: Option<VersionProposal>)
    ensures
        r is Some <==> exists|end: State| State::Propose.allows(&message, end),
        r matches Some(carried) ==> message == Message::ProposeVersions(carried),
{
    let ghost received = message;
    match message {
        Message::ProposeVersions(param0) => {
            assert(State::Propose.allows(&received, State::Confirm));
            Some(param0)
        },
        _ => None,
    }
}

/// A message is allowed in at most one way: the state it leads to is
/// determined by the state it is sent in.
pub proof fn lemma_one_end(state: State, message: Message, end1: State, end2: State)
    requires
        state.allows(&message, end1),
        state.allows(&message, end2),
    ensures
        end1 == end2,
{
}

/// Nobody may send in a state exactly when no message is allowed in it:
/// such a state is never left.
pub proof fn lemma_final_states(state: State)
    ensures
        state.agency() is None <==> forall|message: Message, end: State|
            !state.allows(&message, end),
{
    match state {
        State::Propose => {
            let witness = Message::ProposeVersions(arbitrary());
            assert(state.allows(&witness, State::Confirm));
        },
        State::Confirm => {
            let witness = Message::AcceptVersion(arbitrary(), arbitrary());
            assert(state.allows(&witness, State::Done));
        },
        State::Done => {},
    }
}

/// Whoever sends a message that is allowed has the right to speak: the
/// side that may send in a state is the side declared to send the
/// message.
pub proof fn lemma_sender_has_agency(state: State, message: Message, end: State)
    requires
        state.allows(&message, end),
    ensures
        state.agency() == Some(message.declared_sender()),
{
}

impl State {
    /// The place of the state in the list of the states.
    pub open spec fn place(self) -> usize {
        match self {
            State::Propose => 0,
            State::Confirm => 1,
            State::Done => 2,
        }
    }

    /// The place of the state in the list of the states.
    pub fn index(self) -> (i: usize)
        ensures
            i == self.place(),
    {
        match self {
            State::Propose => 0,
            State::Confirm => 1,
            State::Done => 2,
        }
    }
}

impl Message {
    /// The place of the message in the list of the messages.
    pub open spec fn place(&self) -> usize {
        match self {
            Message::ProposeVersions(..) => 0,
            Message::AcceptVersion(..) => 1,
            Message::Refuse(..) => 2,
            Message::QueryReply(..) => 3,
        }
    }

    /// The place of the message in the list of the messages.
    pub fn index(&self) -> (i: usize)
        ensures
            i == self.place(),
    {
        match self {
            Message::ProposeVersions(..) => 0,
            Message::AcceptVersion(..) => 1,
            Message::Refuse(..) => 2,
            Message::QueryReply(..) => 3,
        }
    }
}

/// The transitions of the protocol as they are declared, each state and
/// message by its place.
pub open spec fn declared() -> Seq<Transition> {
    seq![
        Transition { start: 0, message: 0, end: 1 },
        Transition { start: 1, message: 1, end: 2 },
        Transition { start: 1, message: 2, end: 2 },
        Transition { start: 1, message: 3, end: 2 },
    ]
}

/// The places of the messages that the client is declared to send.
pub open spec fn declared_clients() -> Seq<usize> {
    seq![0usize]
}

/// The declaration of the protocol, as data.
pub fn declaration() -> (r: (Context, Vec<usize>))
    ensures
        r.0@ == declared(),
        r.1@ == declared_clients(),
{
    let mut transitions: Vec<Transition> = Vec::new();
    transitions.push(Transition { start: 0, message: 0, end: 1 });
    transitions.push(Transition { start: 1, message: 1, end: 2 });
    transitions.push(Transition { start: 1, message: 2, end: 2 });
    transitions.push(Transition { start: 1, message: 3, end: 2 });
    let mut clients: Vec<usize> = Vec::new();
    clients.push(0);
    assert(transitions@ =~= declared());
    assert(clients@ =~= declared_clients());
    (Context::new(transitions), clients)
}

/// The relation is the declaration: a message is allowed in a state and
/// leads to another exactly when the transition function derived from the
/// declaration says so.
pub proof fn lemma_relation_is_declared(state: State, message: Message, end: State)
    ensures
        state.allows(&message, end) <==> next_state(declared(), state.place(), message.place())
            == Some(end.place()),
{
    reveal_with_fuel(next_state, 5);
    let d = declared();
    assert(d.skip(1) =~= d.skip(0).skip(1));
    assert(d.skip(2) =~= d.skip(1).skip(1));
    assert(d.skip(3) =~= d.skip(2).skip(1));
    assert(d.skip(4) =~= d.skip(3).skip(1));
    assert(d.skip(0) =~= d);
}

/// A message is written as an array: the number of its kind, then what it carries.
impl CborCodec for Message {
    open spec fn encodes(self, tree: Cbor) -> bool {
        tree matches Cbor::Array(items) && match self {
            Message::ProposeVersions(f0) => items@.len() == 2 && is_u64(0, items@[0]) && f0.encodes(items@[1]),
            Message::AcceptVersion(f0, f1) => items@.len() == 3 && is_u64(1, items@[0]) && f0.encodes(items@[1]) && f1.encodes(items@[2]),
            Message::Refuse(f0) => items@.len() == 2 && is_u64(2, items@[0]) && f0.encodes(items@[1]),
            Message::QueryReply(f0) => items@.len() == 2 && is_u64(3, items@[0]) && f0.encodes(items@[1]),
        }
    }

    fn to_cbor(&self) -> (tree: Cbor) {
        let mut items: Vec<Cbor> = Vec::new();
        match self {
            Message::ProposeVersions(f0) => {
                items.push(from_u64(0));
                items.push(f0.to_cbor());
            },
            Message::AcceptVersion(f0, f1) => {
                items.push(from_u64(1));
                items.push(f0.to_cbor());
                items.push(f1.to_cbor());
            },
            Message::Refuse(f0) => {
                items.push(from_u64(2));
                items.push(f0.to_cbor());
            },
            Message::QueryReply(f0) => {
                items.push(from_u64(3));
                items.push(f0.to_cbor());
            },
        }
        Cbor::Array(items)
    }

    fn from_cbor(tree: &Cbor) -> (r: Result<Message, Undecodable>) {
        let items = match items_of(tree) {
            Ok(items) => items,
            Err(e) => {
                assert forall|value: Message| !value.encodes(*tree) by {}
                return Err(e);
            },
        };
        if items.len() == 0 {
            assert forall|value: Message| !value.encodes(*tree) by {}
            return Err(Undecodable);
        }
        let tag = match to_u64(&items[0]) {
            Ok(tag) => tag,
            Err(e) => {
                assert forall|value: Message| !value.encodes(*tree) by {}
                return Err(e);
            },
        };
        if tag == 0 {
            if items.len() != 2 {
                assert forall|value: Message| !value.encodes(*tree) by {}
                return Err(Undecodable);
            }
            let f0 = match VersionProposal::from_cbor(&items[1]) {
                Ok(value) => value,
                Err(e) => {
                    assert forall|value: Message| !value.encodes(*tree) by {}
                    return Err(e);
                },
            };
            let read = Message::ProposeVersions(f0);
            assert(read.encodes(*tree));
            Ok(read)
        } else if tag == 1 {
            if items.len() != 3 {
                assert forall|value: Message| !value.encodes(*tree) by {}
                return Err(Undecodable);
            }
            let f0 = match Version::from_cbor(&items[1]) {
                Ok(value) => value,
                Err(e) => {
                    assert forall|value: Message| !value.encodes(*tree) by {}
                    return Err(e);
                },
            };
            let f1 = match HandshakeNodeData::from_cbor(&items[2]) {
                Ok(value) => value,
                Err(e) => {
                    assert forall|value: Message| !value.encodes(*tree) by {}
                    return Err(e);
                },
            };
            let read = Message::AcceptVersion(f0, f1);
            assert(read.encodes(*tree));
            Ok(read)
        } else if tag == 2 {
            if items.len() != 2 {
                assert forall|value: Message| !value.encodes(*tree) by {}
                return Err(Undecodable);
            }
            let f0 = match RefuseReason::from_cbor(&items[1]) {
                Ok(value) => value,
                Err(e) => {
                    assert forall|value: Message| !value.encodes(*tree) by {}
                    return Err(e);
                },
            };
            let read = Message::Refuse(f0);
            assert(read.encodes(*tree));
            Ok(read)
        } else if tag == 3 {
            if items.len() != 2 {
                assert forall|value: Message| !value.encodes(*tree) by {}
                return Err(Undecodable);
            }
            let f0 = match VersionProposal::from_cbor(&items[1]) {
                Ok(value) => value,
                Err(e) => {
                    assert forall|value: Message| !value.encodes(*tree) by {}
                    return Err(e);
                },
            };
            let read = Message::QueryReply(f0);
            assert(read.encodes(*tree));
            Ok(read)
        } else {
            assert forall|value: Message| !value.encodes(*tree) by {}
            Err(Undecodable)
        }
    }
}
} // verus!
