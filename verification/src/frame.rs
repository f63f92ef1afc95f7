//! Value types of the framing layer: the eight-byte frame header and the
//! channel identifier, direction and timestamp it carries.

use vstd::arithmetic::div_mod::lemma_fundamental_div_mod_converse;
use vstd::prelude::*;

verus! {

/// Number of bytes of a frame header on the wire.
pub const HEADER_SIZE: usize = 8;

/// Largest payload a single frame can announce.
pub const MAX_PAYLOAD: usize = 0xffff;

const ID_MASK: u16 = 0x7fff;

/// Timestamp of a frame: microseconds since the epoch, truncated to 32 bits.
///
/// The value wraps roughly every 71 minutes and is observational only.
#[derive(Clone, Copy, Debug)]
pub struct Time(pub u32);

/// A reading of the system clock, `std::time::SystemTime`. Nothing is known
/// of what it holds.
#[verifier::external_type_specification]
#[verifier::external_body]
pub struct ExSystemTime(std::time::SystemTime);

/// The error of a clock that stands before the moment it is compared with,
/// `std::time::SystemTimeError`. Nothing is known of what it holds.
#[verifier::external_type_specification]
#[verifier::external_body]
pub struct ExSystemTimeError(std::time::SystemTimeError);

/// Reads the system clock: `std::time::SystemTime::now`. Nothing is claimed
/// of the reading.
#[verifier::external_body]
fn clock_reading() -> std::time::SystemTime {
    std::time::SystemTime::now()
}

/// The time from the epoch to `reading`: `SystemTime::duration_since` with
/// `UNIX_EPOCH`. Nothing is claimed of the result; it is an error where the
/// reading lies before the epoch.
#[verifier::external_body]
fn since_epoch(reading: &std::time::SystemTime) -> Result<
    core::time::Duration,
    std::time::SystemTimeError,
> {
    reading.duration_since(std::time::SystemTime::UNIX_EPOCH)
}

/// The whole microseconds of `elapsed`: `Duration::as_micros`. Nothing is
/// claimed of the number.
#[verifier::external_body]
fn whole_micros(elapsed: &core::time::Duration) -> u128 {
    elapsed.as_micros()
}

impl Time {
    /// The timestamp of a moment `micros` microseconds after the epoch: the
    /// low 32 bits of that number.
    pub fn from_micros(micros: u128) -> (t: Time)
        ensures
            t.0 == micros % 0x1_0000_0000,
    {
        Time((micros % 0x1_0000_0000u128) as u32)
    }

    /// The timestamp of what the clock gave for the time since the epoch:
    /// that of `micros` microseconds, or zero where the clock stands before
    /// the epoch and gave none.
    pub fn from_clock(micros: Option<u128>) -> (t: Time)
        ensures
            t.0 == Time::clock_value(micros),
    {
        match micros {
            Some(m) => Time::from_micros(m),
            None => Time(0),
        }
    }

    /// The current time: the low 32 bits of the microseconds that the system
    /// clock counts since the epoch, or zero where the clock stands before
    /// the epoch. Which number the clock gives is not known here; what is
    /// made of it is what `from_clock` says.
    pub fn now() -> Time {
        let reading = clock_reading();
        let micros = match since_epoch(&reading) {
            Ok(elapsed) => Some(whole_micros(&elapsed)),
            Err(_) => None,
        };
        Time::from_clock(micros)
    }

    /// The number of the timestamp made of what the clock gave: the low 32
    /// bits of the microseconds, or zero where it gave none.
    pub open spec fn clock_value(micros: Option<u128>) -> u32 {
        match micros {
            Some(m) => (m % 0x1_0000_0000) as u32,
            None => 0,
        }
    }
}

/// Channel identifier: an unsigned integer of 15 bits.
#[derive(Clone, Copy, Debug, Hash, PartialEq, Eq, PartialOrd, Ord, Structural)]
pub struct Id(u16);

impl Id {
    #[verifier::type_invariant]
    spec fn in_range(self) -> bool {
        self.0 < 0x8000
    }

    /// The integer this identifier stands for.
    pub closed spec fn value(self) -> u16 {
        self.0
    }

    /// The identifier of the channel reserved for the handshake.
    pub fn zero() -> (id: Id)
        ensures
            id.value() == 0,
    {
        Id(0)
    }

    /// Builds an identifier from its integer, which must fit in 15 bits.
    pub fn new(v: u16) -> (id: Id)
        requires
            v < 0x8000,
        ensures
            id.value() == v,
    {
        Id(v)
    }

    /// The integer this identifier stands for.
    pub fn as_int(self) -> (v: u16)
        ensures
            v == self.value(),
            v < 0x8000,
    {
        proof {
            use_type_invariant(&self);
        }
        self.0
    }

    /// Two identifiers are the same exactly when their integers are.
    pub proof fn lemma_value_injective(a: Id, b: Id)
        ensures
            a == b <==> a.value() == b.value(),
    {
    }
}

/// The side of a connection: the one that opened it or the one that accepted it.
#[derive(Clone, Copy, Debug, PartialEq, Eq, Structural)]
pub enum Direction {
    Initiator,
    Responder,
}

impl Direction {
    /// The bit that stands for this direction in a header.
    pub open spec fn bit(self) -> int {
        match self {
            Direction::Initiator => 0,
            Direction::Responder => 1,
        }
    }

    /// The other side.
    pub open spec fn flip(self) -> Direction {
        match self {
            Direction::Initiator => Direction::Responder,
            Direction::Responder => Direction::Initiator,
        }
    }

    /// The other side.
    pub fn opposite(self) -> (d: Direction)
        ensures
            d == self.flip(),
    {
        match self {
            Direction::Initiator => Direction::Responder,
            Direction::Responder => Direction::Initiator,
        }
    }

    /// The bit that stands for this direction in a header.
    pub fn as_int(self) -> (v: u64)
        ensures
            v == self.bit(),
    {
        match self {
            Direction::Initiator => 0,
            Direction::Responder => 1,
        }
    }
}


impl core::ops::Not for Direction {
    type Output = Direction;

    /// The other side.
    fn not(self) -> (d: Direction) {
        self.opposite()
    }
}

impl vstd::std_specs::ops::NotSpecImpl for Direction {
    open spec fn obeys_not_spec() -> bool {
        true
    }

    open spec fn not_req(self) -> bool {
        true
    }

    open spec fn not_spec(self) -> Direction {
        self.flip()
    }
}

/// What a frame header says, field by field.
pub struct HeaderFields {
    /// Timestamp of the sender.
    pub time: u32,
    /// Integer of the channel identifier; always below `0x8000`.
    pub id: u16,
    /// Whether the sender is the side that accepted the connection.
    pub responder: bool,
    /// Number of payload bytes that follow the header.
    pub payload_length: u16,
}

impl HeaderFields {
    /// The direction of the sender.
    pub open spec fn direction(self) -> Direction {
        if self.responder {
            Direction::Responder
        } else {
            Direction::Initiator
        }
    }
}

/// The eight bytes that carry `f` on the wire, big-endian:
/// `time:u32 | responder:1 | id:15 | payload_length:u16`.
pub open spec fn wire_bytes(f: HeaderFields) -> Seq<u8> {
    seq![
        (f.time / 0x100_0000) as u8,
        (f.time / 0x1_0000 % 0x100) as u8,
        (f.time / 0x100 % 0x100) as u8,
        (f.time % 0x100) as u8,
        ((if f.responder { 0x80int } else { 0int }) + f.id / 0x100) as u8,
        (f.id % 0x100) as u8,
        (f.payload_length / 0x100) as u8,
        (f.payload_length % 0x100) as u8,
    ]
}

/// The fields that the first eight bytes of `b` carry.
pub open spec fn read_fields(b: Seq<u8>) -> HeaderFields {
    HeaderFields {
        time: (b[0] * 0x100_0000 + b[1] * 0x1_0000 + b[2] * 0x100 + b[3]) as u32,
        id: (b[4] % 0x80 * 0x100 + b[5]) as u16,
        responder: b[4] >= 0x80,
        payload_length: (b[6] * 0x100 + b[7]) as u16,
    }
}

proof fn lemma_join_time(t: u32)
    by (bit_vector)
    ensures
        t / 0x100_0000 < 0x100,
        (t / 0x100_0000) * 0x100_0000 + (t / 0x1_0000 % 0x100) * 0x1_0000 + (t / 0x100 % 0x100)
            * 0x100 + t % 0x100 == t,
{
}

proof fn lemma_join_short(x: u16)
    by (bit_vector)
    ensures
        x / 0x100 < 0x100,
        (x / 0x100) * 0x100 + x % 0x100 == x,
        x < 0x8000 ==> x / 0x100 < 0x80,
{
}

/// Reading what was written gives the fields back.
pub proof fn lemma_read_wire(f: HeaderFields)
    requires
        f.id < 0x8000,
    ensures
        wire_bytes(f).len() == HEADER_SIZE,
        read_fields(wire_bytes(f)) == f,
{
    let b = wire_bytes(f);
    let g = read_fields(b);
    lemma_join_time(f.time);
    lemma_join_short(f.id);
    lemma_join_short(f.payload_length);
    assert(b[0] == f.time / 0x100_0000);
    assert(b[1] == f.time / 0x1_0000 % 0x100);
    assert(b[2] == f.time / 0x100 % 0x100);
    assert(b[3] == f.time % 0x100);
    assert(g.time == f.time);
    assert(b[4] == (if f.responder { 0x80int } else { 0int }) + f.id / 0x100);
    assert(b[5] == f.id % 0x100);
    assert(b[4] as int % 0x80 == f.id / 0x100);
    assert(g.id == f.id);
    assert(g.responder == f.responder);
    assert(b[6] == f.payload_length / 0x100);
    assert(b[7] == f.payload_length % 0x100);
    assert(g.payload_length == f.payload_length);
}

/// Writing what was read gives the bytes back.
pub proof fn lemma_wire_read(b: Seq<u8>)
    requires
        b.len() == HEADER_SIZE,
    ensures
        read_fields(b).id < 0x8000,
        wire_bytes(read_fields(b)) == b,
{
    let f = read_fields(b);
    let c = wire_bytes(f);
    let (b0, b1, b2, b3) = (b[0] as int, b[1] as int, b[2] as int, b[3] as int);
    let t = b0 * 0x100_0000 + b1 * 0x1_0000 + b2 * 0x100 + b3;
    assert(f.time == t);
    lemma_fundamental_div_mod_converse(t, 0x100_0000, b0, b1 * 0x1_0000 + b2 * 0x100 + b3);
    lemma_fundamental_div_mod_converse(t, 0x1_0000, b0 * 0x100 + b1, b2 * 0x100 + b3);
    lemma_fundamental_div_mod_converse(b0 * 0x100 + b1, 0x100, b0, b1);
    lemma_fundamental_div_mod_converse(t, 0x100, b0 * 0x1_0000 + b1 * 0x100 + b2, b3);
    lemma_fundamental_div_mod_converse(b0 * 0x1_0000 + b1 * 0x100 + b2, 0x100, b0 * 0x100 + b1, b2);
    assert(c[0] == b[0]);
    assert(c[1] == b[1]);
    assert(c[2] == b[2]);
    assert(c[3] == b[3]);
    let hi = b[4] as int % 0x80;
    lemma_fundamental_div_mod_converse(hi * 0x100 + b[5], 0x100, hi, b[5] as int);
    assert(c[4] == b[4]);
    assert(c[5] == b[5]);
    lemma_fundamental_div_mod_converse(b[6] * 0x100 + b[7], 0x100, b[6] as int, b[7] as int);
    assert(c[6] == b[6]);
    assert(c[7] == b[7]);
    assert(c =~= b);
}

/// A header that is built, written and read again says what it was built
/// from: the same time, identifier, direction and payload length.
pub proof fn lemma_header_round_trip(time: Time, id: Id, direction: Direction, payload_length: u16)
    requires
        id.value() < 0x8000,
    ensures
        ({
            let f = HeaderFields {
                time: time.0,
                id: id.value(),
                responder: direction == Direction::Responder,
                payload_length,
            };
            &&& read_fields(wire_bytes(f)) == f
            &&& read_fields(wire_bytes(f)).direction() == direction
        }),
{
    let f = HeaderFields {
        time: time.0,
        id: id.value(),
        responder: direction == Direction::Responder,
        payload_length,
    };
    lemma_read_wire(f);
}

/// A frame header, packed in 64 bits.
#[derive(Clone, Copy)]
pub struct Header(u64);

impl View for Header {
    type V = HeaderFields;

    closed spec fn view(&self) -> HeaderFields {
        HeaderFields {
            time: (self.0 >> 32) as u32,
            id: ((self.0 >> 16) & 0x7fff) as u16,
            responder: (self.0 >> 31) & 1 == 1,
            payload_length: (self.0 & 0xffff) as u16,
        }
    }
}

proof fn lemma_pack(time: u32, id: u16, dir: u64, len: u16)
    by (bit_vector)
    requires
        id < 0x8000,
        dir == 0 || dir == 1,
    ensures
        ({
            let v = ((time as u64) << 32) | ((id as u64) << 16) | (dir << 31) | (len as u64);
            &&& (v >> 32) as u32 == time
            &&& ((v >> 16) & 0x7fff) as u16 == id
            &&& (v >> 31) & 1 == dir
            &&& (v & 0xffff) as u16 == len
        }),
{
}

proof fn lemma_field_bounds(v: u64)
    by (bit_vector)
    ensures
        ((v >> 16) & 0x7fff) < 0x8000,
        (v >> 32) <= 0xffff_ffff,
        (v & 0xffff) <= 0xffff,
        (v >> 31) & 1 == 0 || (v >> 31) & 1 == 1,
{
}

proof fn lemma_time_bytes(v: u64)
    by (bit_vector)
    ensures
        (v >> 56) & 0xff == (((v >> 32) as u32) / 0x100_0000) as u64,
        (v >> 48) & 0xff == (((v >> 32) as u32) / 0x1_0000 % 0x100) as u64,
        (v >> 40) & 0xff == (((v >> 32) as u32) / 0x100 % 0x100) as u64,
        (v >> 32) & 0xff == (((v >> 32) as u32) % 0x100) as u64,
{
}

proof fn lemma_id_bytes(v: u64)
    by (bit_vector)
    ensures
        (v >> 31) & 1 == 1 ==> (v >> 24) & 0xff == 0x80 + ((((v >> 16) & 0x7fff) as u16) / 0x100) as u64,
        (v >> 31) & 1 == 0 ==> (v >> 24) & 0xff == ((((v >> 16) & 0x7fff) as u16) / 0x100) as u64,
        (v >> 16) & 0xff == ((((v >> 16) & 0x7fff) as u16) % 0x100) as u64,
{
}

proof fn lemma_length_bytes(v: u64)
    by (bit_vector)
    ensures
        (v >> 8) & 0xff == (((v & 0xffff) as u16) / 0x100) as u64,
        v & 0xff == (((v & 0xffff) as u16) % 0x100) as u64,
{
}

proof fn lemma_unpack(v: u64)
    ensures
        ((v >> 16) & 0x7fff) < 0x8000,
        (v >> 32) <= 0xffff_ffff,
        (v & 0xffff) <= 0xffff,
        (v >> 31) & 1 == 0 || (v >> 31) & 1 == 1,
        (v >> 56) & 0xff == (((v >> 32) as u32) / 0x100_0000) as u64,
        (v >> 48) & 0xff == (((v >> 32) as u32) / 0x1_0000 % 0x100) as u64,
        (v >> 40) & 0xff == (((v >> 32) as u32) / 0x100 % 0x100) as u64,
        (v >> 32) & 0xff == (((v >> 32) as u32) % 0x100) as u64,
        (v >> 31) & 1 == 1 ==> (v >> 24) & 0xff == 0x80 + ((((v >> 16) & 0x7fff) as u16) / 0x100) as u64,
        (v >> 31) & 1 == 0 ==> (v >> 24) & 0xff == ((((v >> 16) & 0x7fff) as u16) / 0x100) as u64,
        (v >> 16) & 0xff == ((((v >> 16) & 0x7fff) as u16) % 0x100) as u64,
        (v >> 8) & 0xff == (((v & 0xffff) as u16) / 0x100) as u64,
        v & 0xff == (((v & 0xffff) as u16) % 0x100) as u64,
{
    lemma_field_bounds(v);
    lemma_time_bytes(v);
    lemma_id_bytes(v);
    lemma_length_bytes(v);
}

proof fn lemma_assemble(b0: u8, b1: u8, b2: u8, b3: u8, b4: u8, b5: u8, b6: u8, b7: u8)
    by (bit_vector)
    ensures
        ({
            let v = ((b0 as u64) << 56) | ((b1 as u64) << 48) | ((b2 as u64) << 40) | ((b3 as u64)
                << 32) | ((b4 as u64) << 24) | ((b5 as u64) << 16) | ((b6 as u64) << 8) | (
            b7 as u64);
            &&& (v >> 32) == (b0 as u64) * 0x100_0000 + (b1 as u64) * 0x1_0000 + (b2 as u64)
                * 0x100 + (b3 as u64)
            &&& ((v >> 16) & 0x7fff) == (b4 as u64) % 0x80 * 0x100 + (b5 as u64)
            &&& ((v >> 31) & 1 == 1) == (b4 >= 0x80u8)
            &&& (v & 0xffff) == (b6 as u64) * 0x100 + (b7 as u64)
        }),
{
}

impl Header {
    /// Every header names an identifier of 15 bits.
    pub proof fn lemma_id_in_range(self)
        ensures
            self@.id < 0x8000,
    {
        lemma_unpack(self.0);
    }

    /// Builds the header of a frame.
    pub fn new(time: Time, id: Id, direction: Direction, payload_length: u16) -> (h: Header)
        ensures
            h@ == (HeaderFields {
                time: time.0,
                id: id.value(),
                responder: direction == Direction::Responder,
                payload_length,
            }),
    {
        let id_bits = id.as_int();
        let d = direction.as_int();
        let r = d << 31;
        let v = ((time.0 as u64) << 32) | ((id_bits as u64) << 16) | r | (payload_length as u64);
        proof {
            lemma_pack(time.0, id_bits, d, payload_length);
        }
        Header(v)
    }

    /// The eight bytes of the header as they go on the wire.
    pub fn to_bytes(self) -> (bytes: [u8; 8])
        ensures
            bytes@ == wire_bytes(self@),
    {
        let v = self.0;
        proof {
            lemma_unpack(v);
            lemma_byte_masks(v);
        }
        let bytes: [u8; 8] = [
            ((v >> 56) & 0xff) as u8,
            ((v >> 48) & 0xff) as u8,
            ((v >> 40) & 0xff) as u8,
            ((v >> 32) & 0xff) as u8,
            ((v >> 24) & 0xff) as u8,
            ((v >> 16) & 0xff) as u8,
            ((v >> 8) & 0xff) as u8,
            (v & 0xff) as u8,
        ];
        assert(bytes@ =~= wire_bytes(self@));
        bytes
    }

    /// Reads a header from its eight bytes. Every eight bytes are a header.
    pub fn from_bytes(bytes: [u8; 8]) -> (h: Header)
        ensures
            h@ == read_fields(bytes@),
    {
        let v = ((bytes[0] as u64) << 56) | ((bytes[1] as u64) << 48) | ((bytes[2] as u64) << 40)
            | ((bytes[3] as u64) << 32) | ((bytes[4] as u64) << 24) | ((bytes[5] as u64) << 16) | ((
        bytes[6] as u64) << 8) | (bytes[7] as u64);
        proof {
            lemma_assemble(
                bytes[0],
                bytes[1],
                bytes[2],
                bytes[3],
                bytes[4],
                bytes[5],
                bytes[6],
                bytes[7],
            );
        }
        Header(v)
    }

    /// The timestamp the sender wrote.
    pub fn time(self) -> (t: Time)
        ensures
            t.0 == self@.time,
    {
        proof {
            lemma_unpack(self.0);
        }
        Time((self.0 >> 32) as u32)
    }

    /// The channel the frame belongs to.
    pub fn id(self) -> (id: Id)
        ensures
            id.value() == self@.id,
    {
        proof {
            lemma_unpack(self.0);
        }
        Id(((self.0 >> 16) & 0x7fff) as u16)
    }

    /// The side that sent the frame.
    pub fn direction(self) -> (d: Direction)
        ensures
            d == self@.direction(),
    {
        if self.is_initiator() {
            Direction::Initiator
        } else {
            Direction::Responder
        }
    }

    /// Whether the side that opened the connection sent the frame.
    pub fn is_initiator(self) -> (b: bool)
        ensures
            b == !self@.responder,
    {
        proof {
            lemma_unpack(self.0);
        }
        ((self.0 >> 31) & 0x1) == 0x0
    }

    /// Whether the side that accepted the connection sent the frame.
    pub fn is_responder(self) -> (b: bool)
        ensures
            b == self@.responder,
    {
        ((self.0 >> 31) & 0x1) == 0x1
    }

    /// Number of payload bytes that follow the header.
    pub fn payload_length(self) -> (n: u16)
        ensures
            n == self@.payload_length,
    {
        proof {
            lemma_unpack(self.0);
        }
        (self.0 & 0xffff) as u16
    }
}

proof fn lemma_byte_masks(v: u64)
    by (bit_vector)
    ensures
        (v >> 56) & 0xff <= 0xff,
        (v >> 48) & 0xff <= 0xff,
        (v >> 40) & 0xff <= 0xff,
        (v >> 32) & 0xff <= 0xff,
        (v >> 24) & 0xff <= 0xff,
        (v >> 16) & 0xff <= 0xff,
        (v >> 8) & 0xff <= 0xff,
        v & 0xff <= 0xff,
{
}


/// A value for one side of a channel, or one for each.
#[derive(Clone)]
pub enum OnDirection<T> {
    Initiator(T),
    Responder(T),
    InitiatorAndResponder(T, T),
}

impl<T> OnDirection<T> {
    /// The value held for `dir`, if there is one.
    pub open spec fn at(self, dir: Direction) -> Option<T> {
        match (self, dir) {
            (OnDirection::Initiator(t), Direction::Initiator) => Some(t),
            (OnDirection::Responder(t), Direction::Responder) => Some(t),
            (OnDirection::InitiatorAndResponder(t, _), Direction::Initiator) => Some(t),
            (OnDirection::InitiatorAndResponder(_, t), Direction::Responder) => Some(t),
            _ => None,
        }
    }

    /// Applies `f` to the initiator's value, if there is one.
    pub fn on_initiator<F, V>(&self, f: F) -> (r: Option<V>) where F: FnOnce(&T) -> V
        requires
            self.at(Direction::Initiator) matches Some(t) ==> f.requires((&t,)),
        ensures
            match self.at(Direction::Initiator) {
                Some(t) => r matches Some(v) && f.ensures((&t,), v),
                None => r is None,
            },
    {
        match self {
            OnDirection::Initiator(t) => Some(f(t)),
            OnDirection::Responder(_) => None,
            OnDirection::InitiatorAndResponder(t, _) => Some(f(t)),
        }
    }

    /// Applies `f` to the responder's value, if there is one.
    pub fn on_responder<F, V>(&self, f: F) -> (r: Option<V>) where F: FnOnce(&T) -> V
        requires
            self.at(Direction::Responder) matches Some(t) ==> f.requires((&t,)),
        ensures
            match self.at(Direction::Responder) {
                Some(t) => r matches Some(v) && f.ensures((&t,), v),
                None => r is None,
            },
    {
        match self {
            OnDirection::Initiator(_) => None,
            OnDirection::Responder(t) => Some(f(t)),
            OnDirection::InitiatorAndResponder(_, t) => Some(f(t)),
        }
    }

    /// Applies `f` to every value held, keeping the sides.
    pub fn map<F, U>(&self, f: F) -> (r: OnDirection<U>) where F: Fn(&T) -> U
        requires
            self.at(Direction::Initiator) matches Some(t) ==> f.requires((&t,)),
            self.at(Direction::Responder) matches Some(t) ==> f.requires((&t,)),
        ensures
            match self.at(Direction::Initiator) {
                Some(t) => r.at(Direction::Initiator) matches Some(u) && f.ensures((&t,), u),
                None => r.at(Direction::Initiator) is None,
            },
            match self.at(Direction::Responder) {
                Some(t) => r.at(Direction::Responder) matches Some(u) && f.ensures((&t,), u),
                None => r.at(Direction::Responder) is None,
            },
    {
        match self {
            OnDirection::Initiator(t) => OnDirection::Initiator(f(t)),
            OnDirection::Responder(t) => OnDirection::Responder(f(t)),
            OnDirection::InitiatorAndResponder(t1, t2) => {
                OnDirection::InitiatorAndResponder(f(t1), f(t2))
            },
        }
    }

    /// The initiator's and the responder's value, each if there is one.
    pub fn into_split(self) -> (r: (Option<T>, Option<T>))
        ensures
            r.0 == self.at(Direction::Initiator),
            r.1 == self.at(Direction::Responder),
    {
        match self {
            OnDirection::Initiator(t) => (Some(t), None),
            OnDirection::Responder(t) => (None, Some(t)),
            OnDirection::InitiatorAndResponder(t1, t2) => (Some(t1), Some(t2)),
        }
    }

    /// References to the initiator's and the responder's value, each if there is one.
    pub fn split(&self) -> (r: (Option<&T>, Option<&T>))
        ensures
            match self.at(Direction::Initiator) {
                Some(t) => r.0 == Some(&t),
                None => r.0 is None,
            },
            match self.at(Direction::Responder) {
                Some(t) => r.1 == Some(&t),
                None => r.1 is None,
            },
    {
        match self {
            OnDirection::Initiator(t) => (Some(t), None),
            OnDirection::Responder(t) => (None, Some(t)),
            OnDirection::InitiatorAndResponder(t1, t2) => (Some(t1), Some(t2)),
        }
    }

    /// Whether a value is held for `dir`.
    pub fn has_direction(&self, dir: Direction) -> (b: bool)
        ensures
            b == self.at(dir).is_some(),
    {
        match self {
            OnDirection::Initiator(_) => dir == Direction::Initiator,
            OnDirection::Responder(_) => dir == Direction::Responder,
            OnDirection::InitiatorAndResponder(_, _) => true,
        }
    }

    /// The value held for `dir`, if there is one.
    pub fn get(&self, dir: Direction) -> (r: Option<&T>)
        ensures
            match self.at(dir) {
                Some(t) => r == Some(&t),
                None => r is None,
            },
    {
        match (self, dir) {
            (OnDirection::Initiator(t), Direction::Initiator) => Some(t),
            (OnDirection::Responder(t), Direction::Responder) => Some(t),
            (OnDirection::InitiatorAndResponder(t, _), Direction::Initiator) => Some(t),
            (OnDirection::InitiatorAndResponder(_, t), Direction::Responder) => Some(t),
            _ => None,
        }
    }
}

} // verus!
