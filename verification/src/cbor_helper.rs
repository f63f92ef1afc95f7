//! Finding where one CBOR item ends in a buffer of received bytes.
//!
//! The item's structure is checked by `cbored`. Before that, the buffer is
//! scanned for a byte or text string that announces more bytes than can be
//! addressed, because `cbored` adds an announced length to its position
//! without a check: the validator is only ever shown the bytes before such
//! a string.

use vstd::prelude::*;
use vstd::slice::slice_subrange;

verus! {

/// What `cbored` says of the first item in a buffer.
pub enum CborProbe {
    /// The first item is complete and takes this many bytes.
    Complete(usize),
    /// The buffer ends before the first item does.
    DataMissing,
    /// The bytes cannot begin any item.
    Malformed,
}

/// What holds of the front of a buffer.
pub enum CborBufValidate<'a> {
    /// The bytes cannot begin any CBOR item.
    CborError,
    /// The bytes begin an item and end before it does.
    NeedMore,
    /// These bytes, this many, are exactly one complete item.
    Slice(&'a [u8], usize),
}

/// What holds of the front of a buffer, as a value of the model.
pub enum CborBoundary {
    /// The bytes cannot begin any CBOR item.
    CborError,
    /// The bytes begin an item and end before it does.
    NeedMore,
    /// The first this many bytes are exactly one complete item.
    Slice(nat),
}

impl<'a> View for CborBufValidate<'a> {
    type V = CborBoundary;

    open spec fn view(&self) -> CborBoundary {
        match *self {
            CborBufValidate::CborError => CborBoundary::CborError,
            CborBufValidate::NeedMore => CborBoundary::NeedMore,
            CborBufValidate::Slice(_, n) => CborBoundary::Slice(n as nat),
        }
    }
}

/// What `cbored::validate::Validator::next` returns for a validator made
/// anew on `data`: a function of the bytes alone.
pub uninterp spec fn cbor_item_probe(data: Seq<u8>) -> CborProbe;

/// The number, big-endian, that `bytes` spell.
pub open spec fn be_value(bytes: Seq<u8>) -> nat
    decreases bytes.len(),
{
    if bytes.len() == 0 {
        0
    } else {
        be_value(bytes.drop_last()) * 256 + bytes.last() as nat
    }
}

/// The number of bytes that follow the lead byte `lead` in the head of an
/// item, or `None` where `lead` begins no item.
pub open spec fn head_extra(lead: u8) -> Option<nat> {
    let major = lead / 32;
    let low = lead % 32;
    if low < 24 {
        Some(0)
    } else if low == 24 {
        Some(1)
    } else if low == 25 {
        Some(2)
    } else if low == 26 {
        Some(4)
    } else if low == 27 {
        Some(8)
    } else if low == 31 && (major == 2 || major == 3 || major == 4 || major == 5 || major == 7) {
        Some(0)
    } else {
        None
    }
}

/// Whether a head with lead byte `lead` announces payload bytes of a byte or
/// text string of definite length.
pub open spec fn announces_payload(lead: u8) -> bool {
    (lead / 32 == 2 || lead / 32 == 3) && lead % 32 <= 27
}

/// The number that the head at `at` carries: the low bits of its lead byte,
/// or the bytes that follow it, big-endian.
pub open spec fn head_value(data: Seq<u8>, at: int, extra: nat) -> nat {
    if extra == 0 {
        (data[at] % 32) as nat
    } else {
        be_value(data.subrange(at + 1, at + 1 + extra))
    }
}

/// Walks the heads of `data` from `at` on, skipping the payload of each
/// string, and returns where the walk has to stop short: the place of the
/// first string that announces more bytes than can be addressed after its
/// head. Where there is none before the walk meets the end of `data`, a head
/// that is cut off, a payload that is cut off or a byte that begins no item,
/// the result is the length of `data`.
pub open spec fn walk(data: Seq<u8>, at: nat) -> nat
    decreases data.len() - at,
{
    if at >= data.len() {
        data.len()
    } else {
        match head_extra(data[at as int]) {
            None => data.len(),
            Some(extra) => {
                let end = at + 1 + extra;
                if end > data.len() {
                    data.len()
                } else if announces_payload(data[at as int]) {
                    let size = head_value(data, at as int, extra);
                    if size > usize::MAX - end {
                        at
                    } else if end + size > data.len() {
                        data.len()
                    } else {
                        walk(data, end + size)
                    }
                } else {
                    walk(data, end)
                }
            },
        }
    }
}

/// The length of the part of `data` that the validator is shown: all of
/// `data`, or what comes before the first string that announces more bytes
/// than can be addressed.
pub open spec fn readable_prefix(data: Seq<u8>) -> nat {
    walk(data, 0)
}

/// What `outcome`, found for the first `shown` bytes of a buffer, says of the
/// buffer's front. A length that is zero or beyond what was shown is no
/// boundary.
pub open spec fn boundary_of(outcome: CborProbe, shown: nat) -> CborBoundary {
    match outcome {
        CborProbe::Complete(n) => if 0 < n <= shown {
            CborBoundary::Slice(n as nat)
        } else {
            CborBoundary::CborError
        },
        CborProbe::DataMissing => CborBoundary::NeedMore,
        CborProbe::Malformed => CborBoundary::CborError,
    }
}

/// What holds of the front of `data`: nothing yet of an empty buffer or of
/// one that begins with a string too long to address; else what the validator
/// finds in the part it is shown.
pub open spec fn boundary(data: Seq<u8>) -> CborBoundary {
    let shown = readable_prefix(data);
    if shown == 0 {
        CborBoundary::NeedMore
    } else {
        boundary_of(cbor_item_probe(data.take(shown as int)), shown)
    }
}

proof fn lemma_be_value_bound(bytes: Seq<u8>)
    requires
        bytes.len() <= 8,
    ensures
        bytes.len() == 0 ==> be_value(bytes) == 0,
        bytes.len() == 1 ==> be_value(bytes) < 0x100,
        bytes.len() == 2 ==> be_value(bytes) < 0x1_0000,
        bytes.len() == 3 ==> be_value(bytes) < 0x100_0000,
        bytes.len() == 4 ==> be_value(bytes) < 0x1_0000_0000,
        bytes.len() == 5 ==> be_value(bytes) < 0x100_0000_0000,
        bytes.len() == 6 ==> be_value(bytes) < 0x1_0000_0000_0000,
        bytes.len() == 7 ==> be_value(bytes) < 0x100_0000_0000_0000,
        bytes.len() == 8 ==> be_value(bytes) < 0x1_0000_0000_0000_0000,
    decreases bytes.len(),
{
    if bytes.len() > 0 {
        lemma_be_value_bound(bytes.drop_last());
    }
}

/// Reads the `count` bytes of `data` from `from` on as a big-endian number.
fn read_be(data: &[u8], from: usize, count: usize) -> (v: u64)
    requires
        count <= 8,
        from + count <= data@.len(),
    ensures
        v == be_value(data@.subrange(from as int, from + count)),
{
    let len = data.len();
    let mut v: u64 = 0;
    let mut i: usize = 0;
    while i < count
        invariant
            i <= count <= 8,
            from + count <= data@.len() == len,
            v == be_value(data@.subrange(from as int, from + i)),
        decreases count - i,
    {
        proof {
            let so_far = data@.subrange(from as int, from + i);
            let next = data@.subrange(from as int, from + i + 1);
            lemma_be_value_bound(so_far);
            assert(next.drop_last() =~= so_far);
            assert(next.last() == data@[from + i]);
        }
        v = v * 256 + data[from + i] as u64;
        i += 1;
    }
    v
}

/// The length of the part of `data` that the validator may be shown.
pub fn readable_len(data: &[u8]) -> (n: usize)
    ensures
        n == readable_prefix(data@),
        n <= data@.len(),
{
    let mut at: usize = 0;
    while at < data.len()
        invariant
            at <= data@.len(),
            walk(data@, at as nat) == walk(data@, 0),
        decreases data@.len() - at,
    {
        let lead = data[at];
        let major = lead / 32;
        let low = lead % 32;
        let extra: usize = if low < 24 {
            0
        } else if low == 24 {
            1
        } else if low == 25 {
            2
        } else if low == 26 {
            4
        } else if low == 27 {
            8
        } else if low == 31 && (major == 2 || major == 3 || major == 4 || major == 5 || major
            == 7) {
            0
        } else {
            return data.len();
        };
        if data.len() - at - 1 < extra {
            return data.len();
        }
        let end = at + 1 + extra;
        if (major == 2 || major == 3) && low <= 27 {
            let size: u64 = if extra == 0 {
                low as u64
            } else {
                read_be(data, at + 1, extra)
            };
            if size > (usize::MAX - end) as u64 {
                return at;
            }
            let size = size as usize;
            if size > data.len() - end {
                return data.len();
            }
            at = end + size;
        } else {
            at = end;
        }
    }
    data.len()
}

/// Asks `cbored` where the first item of `data` ends.
///
/// Calls `cbored::validate::Validator::new(data).next()` and keeps of its
/// answer the length of the item, or which kind of error it was: data that
/// is missing, or a lead byte or a structure that is wrong. The answer is
/// named, not described. The caller shows no empty buffer, which `new`
/// refuses, and no string that announces more bytes than can be addressed,
/// whose length `next` would add to its position unchecked.
#[verifier::external_body]
fn cbored_next(data: &[u8]) -> (outcome: CborProbe)
    requires
        data@.len() > 0,
        readable_prefix(data@) == data@.len(),
    ensures
        outcome == cbor_item_probe(data@),
{
    match cbored::validate::Validator::new(data).next() {
        Ok((_, n)) => CborProbe::Complete(n),
        Err(cbored::validate::ValidateError::DataMissing(_)) => CborProbe::DataMissing,
        Err(cbored::validate::ValidateError::LeadError(_)) => CborProbe::Malformed,
        Err(cbored::validate::ValidateError::StateError(_)) => CborProbe::Malformed,
    }
}

/// Says what `outcome`, found for the first `shown` bytes of `data`, means
/// for the front of `data`.
pub fn classify<'a>(outcome: CborProbe, data: &'a [u8], shown: usize) -> (r: CborBufValidate<'a>)
    requires
        shown <= data@.len(),
    ensures
        r@ == boundary_of(outcome, shown as nat),
        r matches CborBufValidate::Slice(item, n) ==> item@ == data@.take(n as int),
{
    match outcome {
        CborProbe::Complete(n) => {
            if n == 0 || n > shown {
                CborBufValidate::CborError
            } else {
                CborBufValidate::Slice(slice_subrange(data, 0, n), n)
            }
        },
        CborProbe::DataMissing => CborBufValidate::NeedMore,
        CborProbe::Malformed => CborBufValidate::CborError,
    }
}

/// Looks for the end of the first CBOR item in `data`.
///
/// Returns `NeedMore` for an empty buffer and for one in which the item is
/// not complete yet, `CborError` where the bytes cannot be an item, and
/// `Slice` with the item's bytes and their number where it is complete.
/// Bytes behind the item play no part.
pub fn cbor_buf_validate<'a>(data: &'a [u8]) -> (r: CborBufValidate<'a>)
    ensures
        r@ == boundary(data@),
        r matches CborBufValidate::Slice(item, n) ==> 0 < n <= data@.len() && item@ == data@.take(
            n as int,
        ),
{
    let shown = readable_len(data);
    if shown == 0 {
        return CborBufValidate::NeedMore;
    }
    let front = slice_subrange(data, 0, shown);
    proof {
        lemma_walk_prefix(data@, 0, shown as nat);
    }
    let outcome = cbored_next(front);
    classify(outcome, data, shown)
}

/// Cutting a buffer where its walk stops leaves a buffer whose walk runs to
/// its end.
proof fn lemma_walk_prefix(data: Seq<u8>, at: nat, stop: nat)
    requires
        at <= stop <= data.len(),
        walk(data, at) == stop,
    ensures
        walk(data.take(stop as int), at) == stop,
    decreases data.len() - at,
{
    let cut = data.take(stop as int);
    if at < stop {
        match head_extra(data[at as int]) {
            None => {},
            Some(extra) => {
                let end = at + 1 + extra;
                if end > data.len() {
                } else if announces_payload(data[at as int]) {
                    let size = head_value(data, at as int, extra);
                    if size > usize::MAX - end {
                    } else if end + size > data.len() {
                        if end <= stop {
                            assert(cut.subrange(at + 1 as int, at + 1 + extra as int) =~= data.subrange(
                                at + 1 as int,
                                at + 1 + extra as int,
                            ));
                        }
                    } else {
                        lemma_walk_from(data, end + size);
                        assert(cut.subrange(at + 1 as int, at + 1 + extra as int) =~= data.subrange(
                            at + 1 as int,
                            at + 1 + extra as int,
                        ));
                        lemma_walk_prefix(data, end + size, stop);
                    }
                } else {
                    lemma_walk_from(data, end);
                    lemma_walk_prefix(data, end, stop);
                }
            },
        }
    }
}

/// A walk stops no earlier than where it begins.
proof fn lemma_walk_from(data: Seq<u8>, at: nat)
    requires
        at <= data.len(),
    ensures
        at <= walk(data, at) <= data.len(),
    decreases data.len() - at,
{
    if at < data.len() {
        match head_extra(data[at as int]) {
            None => {},
            Some(extra) => {
                let end = at + 1 + extra;
                if end > data.len() {
                } else if announces_payload(data[at as int]) {
                    let size = head_value(data, at as int, extra);
                    if size > usize::MAX - end {
                    } else if end + size > data.len() {
                    } else {
                        lemma_walk_from(data, end + size);
                    }
                } else {
                    lemma_walk_from(data, end);
                }
            },
        }
    }
}

} // verus!
