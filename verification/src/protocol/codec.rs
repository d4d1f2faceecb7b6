//! Length-prefixed framing: every frame is a 4-byte big-endian payload
//! length followed by the payload (a bincode-encoded message).
use bytes::{Buf, BufMut, BytesMut};
use std::marker::PhantomData;
use vstd::prelude::*;

use crate::error::Error;
use crate::text::{concat3, decimal, decimal_spec};

verus! {

/// The default limit on a frame's payload: 16 MiB.
pub const DEFAULT_MAX_FRAME_SIZE: usize = 16777216;

/// Bytes taken by the length prefix.
pub const LENGTH_PREFIX_SIZE: usize = 4;

#[verifier::external_type_specification]
#[verifier::external_body]
pub struct ExBytesMut(BytesMut);

/// The bytes a `BytesMut` holds, in order.
pub uninterp spec fn bytes_of(b: BytesMut) -> Seq<u8>;

/// `BytesMut::len`: the number of bytes held.
#[verifier::external_body]
pub(crate) fn buf_len(b: &BytesMut) -> (n: usize)
    ensures
        n == bytes_of(*b).len(),
{
    b.len()
}

/// Indexing through `BytesMut`'s `Deref<Target = [u8]>`: the byte at `i`.
#[verifier::external_body]
fn buf_byte(b: &BytesMut, i: usize) -> (x: u8)
    requires
        i < bytes_of(*b).len(),
    ensures
        x == bytes_of(*b)[i as int],
{
    b[i]
}

/// `Buf::advance` on `BytesMut`: drops the first `cnt` bytes (panics past the end).
#[verifier::external_body]
fn buf_advance(b: &mut BytesMut, cnt: usize)
    requires
        cnt <= bytes_of(*old(b)).len(),
    ensures
        bytes_of(*final(b)) == bytes_of(*old(b)).skip(cnt as int),
{
    b.advance(cnt)
}

/// `BytesMut::split_to`: hands out the first `at` bytes and keeps the rest
/// (panics if `at` is past the end).
#[verifier::external_body]
fn buf_split_to(b: &mut BytesMut, at: usize) -> (head: BytesMut)
    requires
        at <= bytes_of(*old(b)).len(),
    ensures
        bytes_of(head) == bytes_of(*old(b)).take(at as int),
        bytes_of(*final(b)) == bytes_of(*old(b)).skip(at as int),
{
    b.split_to(at)
}

/// `BytesMut::reserve`: grows the capacity only; the bytes held stay as they
/// are. It panics when the capacity would exceed what an allocation can hold.
#[verifier::external_body]
fn buf_reserve(b: &mut BytesMut, additional: usize)
    requires
        bytes_of(*old(b)).len() + additional <= isize::MAX,
    ensures
        bytes_of(*final(b)) == bytes_of(*old(b)),
{
    b.reserve(additional)
}

/// `BufMut::put_u32` on `BytesMut`: appends `n` as 4 big-endian bytes.
#[verifier::external_body]
fn buf_put_u32(b: &mut BytesMut, n: u32)
    requires
        bytes_of(*old(b)).len() + 4 <= isize::MAX,
    ensures
        bytes_of(*final(b)) == bytes_of(*old(b)) + be_u32_bytes(n),
{
    b.put_u32(n)
}

/// `BufMut::put_slice` on `BytesMut`: appends the bytes of `s`.
#[verifier::external_body]
fn buf_put_slice(b: &mut BytesMut, s: &[u8])
    requires
        bytes_of(*old(b)).len() + s@.len() <= isize::MAX,
    ensures
        bytes_of(*final(b)) == bytes_of(*old(b)) + s@,
{
    b.put_slice(s)
}

/// `BytesMut::with_capacity`: an empty buffer with room for `cap` bytes
/// (panics when `cap` exceeds what an allocation can hold).
#[verifier::external_body]
fn buf_with_capacity(cap: usize) -> (b: BytesMut)
    requires
        cap <= isize::MAX,
    ensures
        bytes_of(b) == Seq::<u8>::empty(),
{
    BytesMut::with_capacity(cap)
}

/// The 4 big-endian bytes of `n`.
pub open spec fn be_u32_bytes(n: u32) -> Seq<u8> {
    seq![
        (n / 0x1000000) as u8,
        ((n / 0x10000) % 0x100) as u8,
        ((n / 0x100) % 0x100) as u8,
        (n % 0x100) as u8,
    ]
}

/// The number that the first 4 bytes of `buf` spell in big-endian order.
pub open spec fn be_u32_value(buf: Seq<u8>) -> nat
    recommends
        buf.len() >= 4,
{
    (buf[0] as nat) * 0x1000000 + (buf[1] as nat) * 0x10000 + (buf[2] as nat) * 0x100
        + (buf[3] as nat)
}

/// What reading one frame from the front of a buffer gives.
pub enum FrameRead {
    /// The buffer does not yet hold a whole frame.
    Incomplete,
    /// The prefix announces a payload longer than the limit.
    TooLarge(nat),
    /// A whole frame: its payload and the bytes after it.
    Frame(Seq<u8>, Seq<u8>),
}

/// Reading one frame from the front of `buf` with payload limit `max`.
pub open spec fn read_frame(max: nat, buf: Seq<u8>) -> FrameRead {
    if buf.len() < 4 {
        FrameRead::Incomplete
    } else {
        let n = be_u32_value(buf);
        if n > max {
            FrameRead::TooLarge(n)
        } else if buf.len() < 4 + n {
            FrameRead::Incomplete
        } else {
            FrameRead::Frame(buf.subrange(4, 4 + n as int), buf.skip(4 + n as int))
        }
    }
}

/// The frame that carries `payload`: its length, cut to 32 bits, in
/// big-endian order, then the payload.
pub open spec fn frame_of(payload: Seq<u8>) -> Seq<u8> {
    be_u32_bytes((payload.len() % 0x1_0000_0000) as u32) + payload
}

/// The 4 big-endian bytes of a number spell that number again.
pub proof fn lemma_be_u32_round_trip(n: u32)
    ensures
        be_u32_bytes(n).len() == 4,
        be_u32_value(be_u32_bytes(n)) == n,
{
    let b = be_u32_bytes(n);
    assert(b[0] as nat == n / 0x1000000);
    assert(b[1] as nat == (n / 0x10000) % 0x100);
    assert(b[2] as nat == (n / 0x100) % 0x100);
    assert(b[3] as nat == n % 0x100);
    assert((n / 0x1000000) * 0x1000000 + ((n / 0x10000) % 0x100) * 0x10000 + ((n / 0x100)
        % 0x100) * 0x100 + n % 0x100 == n) by (nonlinear_arith);
}

/// Round trip: a payload that fits the limit and 32 bits, framed and followed
/// by any bytes, reads back as that payload, and the bytes after it are left.
pub proof fn lemma_frame_round_trip(max: nat, payload: Seq<u8>, rest: Seq<u8>)
    requires
        payload.len() <= max,
        payload.len() <= u32::MAX,
    ensures
        read_frame(max, frame_of(payload) + rest) == FrameRead::Frame(payload, rest),
{
    let n = payload.len();
    lemma_be_u32_round_trip(n as u32);
    let buf = frame_of(payload) + rest;
    assert(buf.subrange(0, 4) =~= be_u32_bytes(n as u32));
    assert(be_u32_value(buf) == be_u32_value(be_u32_bytes(n as u32)));
    assert(buf.subrange(4, 4 + n as int) =~= payload);
    assert(buf.skip(4 + n as int) =~= rest);
}

/// A frame that has only partly arrived is not read: every proper prefix of a
/// frame whose payload fits the limit reads as incomplete.
pub proof fn lemma_partial_frame_waits(max: nat, payload: Seq<u8>, k: nat)
    requires
        payload.len() <= max,
        payload.len() <= u32::MAX,
        k < 4 + payload.len(),
    ensures
        read_frame(max, frame_of(payload).take(k as int)) == FrameRead::Incomplete,
{
    let n = payload.len();
    lemma_be_u32_round_trip(n as u32);
    let buf = frame_of(payload).take(k as int);
    let head = be_u32_bytes(n as u32);
    assert(buf.len() == k);
    if k >= 4 {
        assert(buf[0] == head[0] && buf[1] == head[1] && buf[2] == head[2] && buf[3] == head[3]);
        assert(be_u32_value(buf) == be_u32_value(head));
        assert(be_u32_value(buf) == n);
    }
}

/// Two frames sent back to back come out in order: reading the first leaves
/// exactly the second frame and what follows it.
pub proof fn lemma_frames_in_order(max: nat, first: Seq<u8>, second: Seq<u8>, rest: Seq<u8>)
    requires
        first.len() <= max,
        first.len() <= u32::MAX,
        second.len() <= max,
        second.len() <= u32::MAX,
    ensures
        read_frame(max, frame_of(first) + frame_of(second) + rest) == FrameRead::Frame(
            first,
            frame_of(second) + rest,
        ),
        read_frame(max, frame_of(second) + rest) == FrameRead::Frame(second, rest),
{
    assert(frame_of(first) + frame_of(second) + rest =~= frame_of(first) + (frame_of(second)
        + rest));
    lemma_frame_round_trip(max, first, frame_of(second) + rest);
    lemma_frame_round_trip(max, second, rest);
}

/// The frame that carries `payload` on its own (a QUIC data stream frame):
/// the payload's length as 4 big-endian bytes, then the payload. A payload
/// whose length does not fit 32 bits is refused with a message that gives
/// its length.
pub fn length_prefixed(payload: &[u8]) -> (r: Result<BytesMut, String>)
    requires
        payload@.len() + 4 <= isize::MAX,
    ensures
        payload@.len() <= u32::MAX ==> (r matches Ok(b) && bytes_of(b) == frame_of(payload@)),
        payload@.len() > u32::MAX ==> (r matches Err(m) && m@ == "frame too large: "@
            + decimal_spec(payload@.len()) + " bytes exceeds u32::MAX"@),
{
    let n = payload.len();
    if n as u64 > 0xffff_ffffu64 {
        let digits = decimal(n as u64);
        return Err(concat3("frame too large: ", digits.as_str(), " bytes exceeds u32::MAX"));
    }
    let mut buf = buf_with_capacity(LENGTH_PREFIX_SIZE + n);
    buf_put_u32(&mut buf, n as u32);
    buf_put_slice(&mut buf, payload);
    proof {
        assert(n as int % 0x1_0000_0000int == n as int);
        assert(bytes_of(buf) =~= frame_of(payload@));
    }
    Ok(buf)
}

/// A codec for length-prefixed frames whose payloads encode values of type `T`.
pub struct BincodeCodec<T> {
    max_frame_size: usize,
    _marker: PhantomData<T>,
}

/// The largest payload that a codec with limit `max` reads: the limit itself,
/// or, where a whole frame of that size would not fit in one allocation (only
/// on targets whose `usize` is narrower than 64 bits), the largest that does.
pub open spec fn frame_limit(max: usize) -> nat {
    if max + LENGTH_PREFIX_SIZE <= isize::MAX {
        max as nat
    } else {
        (isize::MAX - LENGTH_PREFIX_SIZE) as nat
    }
}

impl<T> BincodeCodec<T> {
    /// The largest payload this codec accepts.
    pub closed spec fn max_frame(&self) -> usize {
        self.max_frame_size
    }

    /// A codec with the default limit of 16 MiB.
    pub fn new() -> (c: Self)
        ensures
            c.max_frame() == DEFAULT_MAX_FRAME_SIZE,
    {
        BincodeCodec { max_frame_size: DEFAULT_MAX_FRAME_SIZE, _marker: PhantomData }
    }

    /// A codec with the given limit (any limit; `usize::MAX` accepts every
    /// frame).
    pub fn with_max_frame_size(max_frame_size: usize) -> (c: Self)
        ensures
            c.max_frame() == max_frame_size,
    {
        BincodeCodec { max_frame_size, _marker: PhantomData }
    }

    /// The limit on a payload.
    pub fn max_frame_size(&self) -> (n: usize)
        ensures
            n == self.max_frame(),
    {
        self.max_frame_size
    }

    /// Takes one frame off the front of `src`.
    ///
    /// Returns `Ok(None)` and leaves `src` as it was while a whole frame has not
    /// arrived, fails with `FrameTooLarge` when the prefix announces a payload
    /// over the limit (see `frame_limit`), and otherwise removes the frame from
    /// `src` and returns its payload.
    pub fn decode_frame(&mut self, src: &mut BytesMut) -> (res: Result<Option<BytesMut>, Error>)
        ensures
            final(self).max_frame() == old(self).max_frame(),
            match read_frame(frame_limit(old(self).max_frame()), bytes_of(*old(src))) {
                FrameRead::Incomplete => res == Ok::<Option<BytesMut>, Error>(None) && bytes_of(
                    *final(src),
                ) == bytes_of(*old(src)),
                FrameRead::TooLarge(n) => res == Err::<Option<BytesMut>, Error>(
                    Error::FrameTooLarge { size: n as usize, max: old(self).max_frame() },
                ) && bytes_of(*final(src)) == bytes_of(*old(src)),
                FrameRead::Frame(payload, rest) => match res {
                    Ok(Some(frame)) => bytes_of(frame) == payload && bytes_of(*final(src))
                        == rest,
                    _ => false,
                },
            },
    {
        let len = buf_len(src);
        if len < LENGTH_PREFIX_SIZE {
            return Ok(None);
        }
        let b0 = buf_byte(src, 0);
        let b1 = buf_byte(src, 1);
        let b2 = buf_byte(src, 2);
        let b3 = buf_byte(src, 3);
        let length: usize = (b0 as usize) * 0x1000000 + (b1 as usize) * 0x10000 + (b2 as usize)
            * 0x100 + (b3 as usize);
        assert(length == be_u32_value(bytes_of(*src)));
        if length > self.max_frame_size || length > (isize::MAX as usize) - LENGTH_PREFIX_SIZE {
            return Err(Error::FrameTooLarge { size: length, max: self.max_frame_size });
        }
        let total = LENGTH_PREFIX_SIZE + length;
        if len < total {
            buf_reserve(src, total - len);
            return Ok(None);
        }
        buf_advance(src, LENGTH_PREFIX_SIZE);
        let payload = buf_split_to(src, length);
        proof {
            let old_bytes = bytes_of(*old(src));
            assert(old_bytes.skip(4).take(length as int) =~= old_bytes.subrange(
                4,
                4 + length as int,
            ));
            assert(old_bytes.skip(4).skip(length as int) =~= old_bytes.skip(4 + length as int));
        }
        Ok(Some(payload))
    }

    /// Appends the frame that carries `payload` to `dst`, or fails with
    /// `FrameTooLarge` (leaving `dst` as it was) when the payload is longer
    /// than the limit.
    pub fn encode_frame(&mut self, payload: &[u8], dst: &mut BytesMut) -> (res: Result<(), Error>)
        requires
            bytes_of(*old(dst)).len() + 4 + payload@.len() <= isize::MAX,
        ensures
            final(self).max_frame() == old(self).max_frame(),
            payload@.len() > old(self).max_frame() ==> res == Err::<(), Error>(
                Error::FrameTooLarge { size: payload@.len() as usize, max: old(self).max_frame() },
            ) && bytes_of(*final(dst)) == bytes_of(*old(dst)),
            payload@.len() <= old(self).max_frame() ==> res == Ok::<(), Error>(()) && bytes_of(
                *final(dst),
            ) == bytes_of(*old(dst)) + frame_of(payload@),
    {
        let n = payload.len();
        if n > self.max_frame_size {
            return Err(Error::FrameTooLarge { size: n, max: self.max_frame_size });
        }
        buf_reserve(dst, LENGTH_PREFIX_SIZE + n);
        let prefix: u32 = ((n as u64) % 0x1_0000_0000u64) as u32;
        buf_put_u32(dst, prefix);
        buf_put_slice(dst, payload);
        proof {
            assert(bytes_of(*final(dst)) =~= bytes_of(*old(dst)) + frame_of(payload@));
        }
        Ok(())
    }
}

impl<T> Default for BincodeCodec<T> {
    fn default() -> (c: Self)
        ensures
            c.max_frame() == DEFAULT_MAX_FRAME_SIZE,
    {
        Self::new()
    }
}

} // verus!
