//! A byte buffer of fixed capacity that is filled at its end and emptied
//! from its front.

use crate::cbor_helper::{boundary, cbor_buf_validate, CborBoundary, CborBufValidate};
use vstd::prelude::*;

verus! {

/// Why no value could be taken from a buffer.
#[derive(Clone, Debug)]
pub enum BufCborReadingError {
    /// The bytes received are no CBOR item.
    InvalidCBOR,
    /// The item is CBOR, and the value cannot be decoded from it; with the
    /// decoder's words.
    InvalidValue(String),
}

/// A byte buffer of fixed capacity.
///
/// The buffer shows the bytes that were appended and not yet consumed, oldest
/// first. It never grows: what does not fit is not taken.
pub struct Buf {
    buf: Vec<u8>,
    pos: usize,
}

/// Copies the first `n` bytes of `src` over `dst[at..at + n]`.
fn copy_into(dst: &mut Vec<u8>, at: usize, src: &[u8], n: usize)
    requires
        n <= src@.len(),
        at + n <= old(dst)@.len(),
    ensures
        final(dst)@ == old(dst)@.subrange(0, at as int) + src@.subrange(0, n as int) + old(
            dst,
        )@.subrange(at + n, old(dst)@.len() as int),
    no_unwind
{
    let len = dst.len();
    let mut i: usize = 0;
    while i < n
        invariant
            i <= n <= src@.len(),
            dst@.len() == len,
            at + n <= dst@.len(),
            dst@.len() == old(dst)@.len(),
            dst@.subrange(0, at as int) == old(dst)@.subrange(0, at as int),
            dst@.subrange(at as int, at + i) == src@.subrange(0, i as int),
            dst@.subrange(at + i, dst@.len() as int) == old(dst)@.subrange(
                at + i,
                dst@.len() as int,
            ),
        decreases n - i,
    {
        let ghost before = dst@;
        dst[at + i] = src[i];
        proof {
            assert(dst@ == before.update(at + i, src@[i as int]));
            assert(dst@.subrange(0, at as int) =~= before.subrange(0, at as int));
            assert(dst@.subrange(at as int, at + i + 1) =~= before.subrange(at as int, at + i).push(
                src@[i as int],
            ));
            assert(src@.subrange(0, i + 1) =~= src@.subrange(0, i as int).push(src@[i as int]));
            assert(dst@.subrange(at + i + 1, dst@.len() as int) =~= before.subrange(
                at + i,
                dst@.len() as int,
            ).subrange(1, dst@.len() - at - i));
            assert(old(dst)@.subrange(at + i + 1, dst@.len() as int) =~= old(dst)@.subrange(
                at + i,
                dst@.len() as int,
            ).subrange(1, dst@.len() - at - i));
        }
        i += 1;
    }
    assert(dst@ =~= old(dst)@.subrange(0, at as int) + src@.subrange(0, n as int) + old(
        dst,
    )@.subrange(at + n, old(dst)@.len() as int));
}

impl View for Buf {
    type V = Seq<u8>;

    /// The bytes that can be consumed, oldest first.
    closed spec fn view(&self) -> Seq<u8> {
        self.buf@.subrange(0, self.pos as int)
    }
}

impl Buf {
    #[verifier::type_invariant]
    spec fn filled_within(self) -> bool {
        self.pos <= self.buf@.len()
    }

    /// The number of bytes the buffer can hold.
    pub closed spec fn capacity(self) -> nat {
        self.buf@.len()
    }

    /// What the buffer shows after `data` is offered whole: everything, where
    /// it fits in a buffer of `capacity` bytes that shows `shown`; else what
    /// it showed before.
    pub open spec fn after_append(shown: Seq<u8>, capacity: nat, data: Seq<u8>) -> Seq<u8> {
        if shown.len() + data.len() <= capacity {
            shown + data
        } else {
            shown
        }
    }

    /// How many bytes of `data` find room in a buffer of `capacity` bytes
    /// that shows `shown`: all of them, or as many as there is room for.
    pub open spec fn room_for(shown: Seq<u8>, capacity: nat, data: Seq<u8>) -> nat {
        if shown.len() + data.len() <= capacity {
            data.len()
        } else {
            (capacity - shown.len()) as nat
        }
    }

    /// An empty buffer that can hold `size` bytes.
    pub fn new(size: usize) -> (b: Buf)
        ensures
            b@ == Seq::<u8>::empty(),
            b.capacity() == size,
    {
        let b = Buf { buf: vec![0u8; size], pos: 0 };
        assert(b@ =~= Seq::<u8>::empty());
        b
    }

    /// Number of bytes that can be consumed.
    pub fn len(&self) -> (n: usize)
        ensures
            n == self@.len(),
            n <= self.capacity(),
    {
        proof {
            use_type_invariant(self);
        }
        self.pos
    }

    /// Number of bytes that can still be appended.
    pub fn empty_remaining(&self) -> (n: usize)
        ensures
            n == self.capacity() - self@.len(),
    {
        proof {
            use_type_invariant(self);
        }
        self.buf.len() - self.pos
    }

    /// Whether nothing more can be appended.
    pub fn empty_is_empty(&self) -> (b: bool)
        ensures
            b == (self@.len() == self.capacity()),
    {
        self.empty_remaining() == 0
    }

    /// The number of bytes the buffer can hold.
    pub fn maximum_capacity(&self) -> (n: usize)
        ensures
            n == self.capacity(),
    {
        self.buf.len()
    }

    /// The bytes that can be consumed, oldest first.
    pub fn available(&self) -> (data: &[u8])
        ensures
            data@ == self@,
    {
        proof {
            use_type_invariant(self);
        }
        vstd::slice::slice_subrange(self.buf.as_slice(), 0, self.pos)
    }

    /// Appends as much of `data` as finds room, and returns how many bytes
    /// that is.
    ///
    /// Where all of `data` fits, all of it is appended. Where it does not,
    /// its first bytes fill the room that is left, and the rest is not taken.
    pub fn append(&mut self, data: &[u8]) -> (n: usize)
        ensures
            final(self).capacity() == old(self).capacity(),
            final(self)@.len() <= final(self).capacity(),
            n == Buf::room_for(old(self)@, old(self).capacity(), data@),
            final(self)@ == old(self)@ + data@.take(n as int),
    {
        proof {
            use_type_invariant(&*self);
        }
        let room = self.buf.len() - self.pos;
        let n = if room < data.len() {
            room
        } else {
            data.len()
        };
        copy_into(&mut self.buf, self.pos, data, n);
        self.pos += n;
        assert(self@ =~= old(self)@ + data@.take(n as int));
        n
    }

    /// Appends all of `data` or nothing.
    ///
    /// `Ok` exactly when `data` fits in the room that is left.
    pub fn append_atomic(&mut self, data: &[u8]) -> (r: Result<(), ()>)
        ensures
            final(self).capacity() == old(self).capacity(),
            final(self)@.len() <= final(self).capacity(),
            r is Ok <==> old(self)@.len() + data@.len() <= old(self).capacity(),
            final(self)@ == Buf::after_append(old(self)@, old(self).capacity(), data@),
    {
        proof {
            use_type_invariant(&*self);
        }
        let room = self.buf.len() - self.pos;
        if room < data.len() {
            return Err(());
        }
        copy_into(&mut self.buf, self.pos, data, data.len());
        self.pos += data.len();
        assert(self@ =~= old(self)@ + data@);
        Ok(())
    }

    /// Appends `data1` followed by `data2`, both or nothing.
    ///
    /// `Ok` exactly when the two together fit in the room that is left.
    pub fn append_atomic2(&mut self, data1: &[u8], data2: &[u8]) -> (r: Result<(), ()>)
        ensures
            final(self).capacity() == old(self).capacity(),
            final(self)@.len() <= final(self).capacity(),
            r is Ok <==> old(self)@.len() + data1@.len() + data2@.len() <= old(self).capacity(),
            final(self)@ == Buf::after_append(
                old(self)@,
                old(self).capacity(),
                data1@ + data2@,
            ),
    {
        proof {
            use_type_invariant(&*self);
        }
        let room = self.buf.len() - self.pos;
        if room < data1.len() || room - data1.len() < data2.len() {
            return Err(());
        }
        copy_into(&mut self.buf, self.pos, data1, data1.len());
        copy_into(&mut self.buf, self.pos + data1.len(), data2, data2.len());
        self.pos += data1.len() + data2.len();
        assert(self@ =~= old(self)@ + (data1@ + data2@));
        Ok(())
    }

    /// Drops the `bytes` oldest bytes; those that follow move to the front.
    pub fn consume(&mut self, bytes: usize)
        requires
            bytes <= old(self)@.len(),
        ensures
            final(self).capacity() == old(self).capacity(),
            final(self)@.len() <= final(self).capacity(),
            final(self)@ == old(self)@.skip(bytes as int),
    {
        proof {
            use_type_invariant(&*self);
        }
        let left = self.pos - bytes;
        let mut i: usize = 0;
        while i < left
            invariant
                i <= left,
                left + bytes == self.pos,
                self.pos == old(self).pos,
                self.pos <= self.buf@.len(),
                self.buf@.len() == old(self).buf@.len(),
                self.buf@.subrange(0, i as int) == old(self).buf@.subrange(
                    bytes as int,
                    bytes + i,
                ),
                forall|j: int| i + bytes <= j < self.pos ==> self.buf@[j] == old(self).buf@[j],
            decreases left - i,
        {
            let ghost before = self.buf@;
            let b = self.buf[i + bytes];
            self.buf[i] = b;
            proof {
                assert(self.buf@ == before.update(i as int, b));
                assert(self.buf@.subrange(0, i + 1) =~= before.subrange(0, i as int).push(b));
                assert(old(self).buf@.subrange(bytes as int, bytes + i + 1) =~= old(self).buf@.subrange(bytes as int, bytes + i).push(b));
            }
            i += 1;
        }
        self.pos = left;
        assert(self@ =~= old(self)@.skip(bytes as int));
    }

    /// Takes one value from the front of the buffer, if a whole CBOR item is
    /// there.
    ///
    /// `decode` is handed the bytes of the first item, exactly, once it is
    /// complete. Only where `decode` succeeds are those bytes consumed. No
    /// item yet gives `None`; bytes that are no item give `InvalidCBOR`.
    pub fn consume_cbor<T, F>(&mut self, decode: F) -> (r: Option<
        Result<T, BufCborReadingError>,
    >) where F: FnOnce(&[u8]) -> Result<T, String>
        requires
            forall|item: &[u8]| decode.requires((item,)),
        ensures
            final(self).capacity() == old(self).capacity(),
            match boundary(old(self)@) {
                CborBoundary::CborError => r == Some::<Result<T, BufCborReadingError>>(
                    Err(BufCborReadingError::InvalidCBOR),
                ) && final(self)@ == old(self)@,
                CborBoundary::NeedMore => r is None && final(self)@ == old(self)@,
                CborBoundary::Slice(n) => exists|item: &[u8], decoded: Result<T, String>|
                    {
                        &&& item@ == old(self)@.take(n as int)
                        &&& decode.ensures((item,), decoded)
                        &&& match decoded {
                            Ok(value) => r == Some::<Result<T, BufCborReadingError>>(Ok(value))
                                && final(self)@ == old(self)@.skip(n as int),
                            Err(why) => r == Some::<Result<T, BufCborReadingError>>(
                                Err(BufCborReadingError::InvalidValue(why)),
                            ) && final(self)@ == old(self)@,
                        }
                    },
            },
    {
        match cbor_buf_validate(self.available()) {
            CborBufValidate::CborError => Some(Err(BufCborReadingError::InvalidCBOR)),
            CborBufValidate::NeedMore => None,
            CborBufValidate::Slice(item, sz) => {
                match decode(item) {
                    Err(why) => Some(Err(BufCborReadingError::InvalidValue(why))),
                    Ok(value) => {
                        self.consume(sz);
                        Some(Ok(value))
                    },
                }
            },
        }
    }
}

/// One step in the life of a buffer.
pub enum BufOp {
    /// These bytes are appended, as far as they find room.
    Append(Seq<u8>),
    /// This many of the oldest bytes are dropped.
    Consume(nat),
}

impl BufOp {
    /// Whether the step can be taken whole by a buffer of `capacity` bytes
    /// that shows `shown`: an append fits, a consume drops no more than is shown.
    pub open spec fn accepted(self, shown: Seq<u8>, capacity: nat) -> bool {
        match self {
            BufOp::Append(data) => shown.len() + data.len() <= capacity,
            BufOp::Consume(n) => n <= shown.len(),
        }
    }

    /// What the buffer shows after the step.
    pub open spec fn apply(self, shown: Seq<u8>, capacity: nat) -> Seq<u8> {
        match self {
            BufOp::Append(data) => shown + data.take(
                Buf::room_for(shown, capacity, data) as int,
            ),
            BufOp::Consume(n) => shown.skip(n as int),
        }
    }
}

/// What an empty buffer of `capacity` bytes shows after `ops`, taken in order.
pub open spec fn shown_after(capacity: nat, ops: Seq<BufOp>) -> Seq<u8>
    decreases ops.len(),
{
    if ops.len() == 0 {
        Seq::empty()
    } else {
        ops.last().apply(shown_after(capacity, ops.drop_last()), capacity)
    }
}

/// Whether each of `ops` is accepted when its turn comes.
pub open spec fn all_accepted(capacity: nat, ops: Seq<BufOp>) -> bool
    decreases ops.len(),
{
    ops.len() == 0 || (all_accepted(capacity, ops.drop_last()) && ops.last().accepted(
        shown_after(capacity, ops.drop_last()),
        capacity,
    ))
}

/// All bytes that `ops` append, in order.
pub open spec fn appended(ops: Seq<BufOp>) -> Seq<u8>
    decreases ops.len(),
{
    if ops.len() == 0 {
        Seq::empty()
    } else {
        match ops.last() {
            BufOp::Append(data) => appended(ops.drop_last()) + data,
            BufOp::Consume(_) => appended(ops.drop_last()),
        }
    }
}

/// The number of bytes that `ops` consume.
pub open spec fn consumed(ops: Seq<BufOp>) -> nat
    decreases ops.len(),
{
    if ops.len() == 0 {
        0
    } else {
        match ops.last() {
            BufOp::Append(_) => consumed(ops.drop_last()),
            BufOp::Consume(n) => consumed(ops.drop_last()) + n,
        }
    }
}

/// After any run of appends and consumes that are each accepted, the buffer
/// shows everything that was appended, in order, less the bytes that were
/// consumed from its front; and it never shows more than it can hold.
pub proof fn lemma_append_consume(capacity: nat, ops: Seq<BufOp>)
    requires
        all_accepted(capacity, ops),
    ensures
        consumed(ops) <= appended(ops).len(),
        shown_after(capacity, ops) == appended(ops).skip(consumed(ops) as int),
        shown_after(capacity, ops).len() <= capacity,
    decreases ops.len(),
{
    if ops.len() > 0 {
        let before = ops.drop_last();
        lemma_append_consume(capacity, before);
        let all = appended(before);
        let gone = consumed(before) as int;
        match ops.last() {
            BufOp::Append(data) => {
                assert(data.take(data.len() as int) =~= data);
                assert(all.skip(gone) + data =~= (all + data).skip(gone));
            },
            BufOp::Consume(n) => {
                assert(all.skip(gone).skip(n as int) =~= all.skip(gone + n));
            },
        }
    } else {
        assert(appended(ops).skip(0) =~= Seq::<u8>::empty());
    }
}

/// Where the first item ends in a buffer depends on the bytes that the
/// buffer shows, not on the pieces in which they arrived: after any run of
/// appends and consumes that are each accepted, what is found at the front
/// of the buffer is what is found at the front of all bytes appended, less
/// the bytes consumed.
pub proof fn lemma_boundary_of_pieces(capacity: nat, ops: Seq<BufOp>)
    requires
        all_accepted(capacity, ops),
    ensures
        boundary(shown_after(capacity, ops)) == boundary(
            appended(ops).skip(consumed(ops) as int),
        ),
{
    lemma_append_consume(capacity, ops);
}

} // verus!
