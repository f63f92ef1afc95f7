//! The receiving end of one channel: a buffer that is filled with payload
//! bytes and emptied one CBOR message at a time.

use crate::buf::Buf;
use crate::cbor_helper::{boundary, cbor_buf_validate, CborBoundary, CborBufValidate};
use vstd::prelude::*;

verus! {

/// Why no message could be read from a channel.
#[derive(Clone, Debug)]
pub enum ReadFailure {
    /// The bytes received are no CBOR item.
    InvalidCbor,
    /// The receive buffer, of this many bytes, is full and holds no complete
    /// message: the message is larger than the channel allows.
    BlockIsTooBig { buffer_size: usize },
    /// The item is CBOR, and no message can be decoded from it; with the
    /// decoder's words.
    InvalidValue(String),
}

/// The error of reading a message from a channel.
#[derive(Clone, Debug)]
pub struct ReadMessageError(pub ReadFailure);

/// The state of a channel's receiving end.
pub struct ChannelImpl {
    recv_data: Buf,
}

/// The receiving end of one channel.
pub struct Channel {
    inner: ChannelImpl,
}

impl View for Channel {
    type V = Seq<u8>;

    /// The bytes received and not yet read as messages, oldest first.
    closed spec fn view(&self) -> Seq<u8> {
        self.inner.recv_data@
    }
}

impl Channel {
    /// The number of bytes the receive buffer can hold.
    pub closed spec fn capacity(self) -> nat {
        self.inner.recv_data.capacity()
    }

    /// The receive buffer.
    pub closed spec fn buffer(self) -> Buf {
        self.inner.recv_data
    }

    /// The buffer's contents and capacity are the channel's.
    pub proof fn lemma_buffer(self)
        ensures
            self.buffer()@ == self@,
            self.buffer().capacity() == self.capacity(),
    {
    }

    /// A channel that has received nothing and can hold `size` bytes.
    pub fn new(size: usize) -> (c: Channel)
        ensures
            c@ == Seq::<u8>::empty(),
            c.capacity() == size,
    {
        Channel { inner: ChannelImpl { recv_data: Buf::new(size) } }
    }

    /// The bytes received and not yet read as messages, oldest first.
    pub fn available(&self) -> (data: &[u8])
        ensures
            data@ == self@,
    {
        self.inner.recv_data.available()
    }

    /// The receive buffer, unless it is full.
    pub fn try_buf_received(&mut self) -> (r: Option<&mut Buf>)
        ensures
            r is None <==> old(self)@.len() == old(self).capacity(),
            r is None ==> *final(self) == *old(self),
            r matches Some(buf) ==> *buf == old(self).buffer() && final(self).buffer() == *final(buf),
    {
        if self.inner.recv_data.empty_is_empty() {
            None
        } else {
            Some(&mut self.inner.recv_data)
        }
    }

    /// The receive buffer.
    pub fn buf_received(&mut self) -> (buf: &mut Buf)
        ensures
            *buf == old(self).buffer(),
            final(self).buffer() == *final(buf),
    {
        &mut self.inner.recv_data
    }

    /// Offers payload bytes to the channel.
    ///
    /// A full buffer takes nothing and gives `None`. Otherwise as much of
    /// `data` as finds room is appended, from its first byte on, and the
    /// number of bytes appended is returned.
    pub fn push_bytes(&mut self, data: &[u8]) -> (r: Option<usize>)
        ensures
            final(self).capacity() == old(self).capacity(),
            old(self)@.len() == old(self).capacity() ==> r is None && final(self)@ == old(self)@,
            old(self)@.len() < old(self).capacity() ==> r == Some(
                Buf::room_for(old(self)@, old(self).capacity(), data@) as usize,
            ) && final(self)@ == old(self)@ + data@.take(
                Buf::room_for(old(self)@, old(self).capacity(), data@) as int,
            ),
    {
        if self.inner.recv_data.empty_is_empty() {
            return None;
        }
        Some(self.inner.recv_data.append(data))
    }

    /// Takes one message from the front of what was received, if a whole
    /// CBOR item is there.
    ///
    /// `decode` is handed the bytes of the first item, exactly, once it is
    /// complete. Only where `decode` succeeds are those bytes consumed. Where
    /// the item is not complete, the result is `None` while the buffer has
    /// room, and `BlockIsTooBig` once it is full.
    pub fn pop_message<T, F>(&mut self, decode: F) -> (r: Option<
        Result<T, ReadMessageError>,
    >) where F: FnOnce(&[u8]) -> Result<T, String>
        requires
            forall|item: &[u8]| decode.requires((item,)),
        ensures
            final(self).capacity() == old(self).capacity(),
            match boundary(old(self)@) {
                CborBoundary::CborError => r == Some::<Result<T, ReadMessageError>>(
                    Err(ReadMessageError(ReadFailure::InvalidCbor)),
                ) && final(self)@ == old(self)@,
                CborBoundary::NeedMore => final(self)@ == old(self)@ && r == if old(self)@.len()
                    == old(self).capacity() {
                    Some::<Result<T, ReadMessageError>>(
                        Err(
                            ReadMessageError(
                                ReadFailure::BlockIsTooBig {
                                    buffer_size: old(self).capacity() as usize,
                                },
                            ),
                        ),
                    )
                } else {
                    None
                },
                CborBoundary::Slice(n) => exists|item: &[u8], decoded: Result<T, String>|
                    {
                        &&& item@ == old(self)@.take(n as int)
                        &&& decode.ensures((item,), decoded)
                        &&& match decoded {
                            Ok(message) => r == Some::<Result<T, ReadMessageError>>(Ok(message))
                                && final(self)@ == old(self)@.skip(n as int),
                            Err(why) => r == Some::<Result<T, ReadMessageError>>(
                                Err(ReadMessageError(ReadFailure::InvalidValue(why))),
                            ) && final(self)@ == old(self)@,
                        }
                    },
            },
    {
        match cbor_buf_validate(self.inner.recv_data.available()) {
            CborBufValidate::CborError => Some(Err(ReadMessageError(ReadFailure::InvalidCbor))),
            CborBufValidate::NeedMore => {
                if self.inner.recv_data.empty_is_empty() {
                    Some(
                        Err(
                            ReadMessageError(
                                ReadFailure::BlockIsTooBig {
                                    buffer_size: self.inner.recv_data.maximum_capacity(),
                                },
                            ),
                        ),
                    )
                } else {
                    None
                }
            },
            CborBufValidate::Slice(item, sz) => {
                match decode(item) {
                    Err(why) => Some(Err(ReadMessageError(ReadFailure::InvalidValue(why)))),
                    Ok(message) => {
                        self.inner.recv_data.consume(sz);
                        Some(Ok(message))
                    },
                }
            },
        }
    }
}

} // verus!
