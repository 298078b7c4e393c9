//! The codec capability, fixed-width big-endian integers, and sequencing.

use vstd::prelude::*;
use crate::error::{Error, FormatError};

verus! {

/// A type with a byte grammar: how a value is written, and how bytes are read.
///
/// Contracts speak of a value through its `Model`, a mathematical value.
pub trait Codec: Sized {
    /// What a value of this type stands for.
    type Model;

    /// The mathematical value that `self` holds.
    spec fn model(&self) -> Self::Model;

    /// The bytes that `v` is written as.
    spec fn wire(v: Self::Model) -> Seq<u8>;

    /// Whether `v` can be written: every length fits the prefix that declares it.
    spec fn valid(v: Self::Model) -> bool;

    /// What reading one value off the front of `bytes` gives: the value and the
    /// number of bytes it took, or the error.
    spec fn parse(bytes: Seq<u8>) -> Result<(Self::Model, nat), Error>;

    /// Whether a written value marks its own end, so that bytes may follow it.
    spec fn framed() -> bool;

    /// Whether every part that is followed by another part is framed.
    spec fn sequenced() -> bool;

    /// The number of bytes that `self` is written as.
    fn tls_serialized_len(&self) -> (n: usize)
        requires
            Self::wire(self.model()).len() <= usize::MAX,
        ensures
            n == Self::wire(self.model()).len(),
    ;

    /// Writes `self` into a fresh buffer.
    fn tls_serialize_detached(&self) -> (r: Result<Vec<u8>, Error>)
        ensures
            Self::valid(self.model()) ==> r is Ok && r->Ok_0@ == Self::wire(self.model()),
            !Self::valid(self.model()) ==> r is Err && r->Err_0 == Error::Format(
                FormatError::LengthMismatch,
            ),
    ;

    /// Reads one value off the front of `bytes`; returns it with the number of
    /// bytes taken.
    fn tls_deserialize(bytes: &[u8]) -> (r: Result<(Self, usize), Error>)
        ensures
            match Self::parse(bytes@) {
                Ok((v, n)) => r is Ok && r->Ok_0.0.model() == v && r->Ok_0.1 == n && n
                    <= bytes@.len(),
                Err(e) => r is Err && r->Err_0 == e,
            },
    ;

    /// Reading what was written gives the value back, and takes exactly the
    /// bytes written.
    proof fn lemma_round_trip(v: Self::Model, rest: Seq<u8>)
        requires
            Self::valid(v),
            Self::sequenced(),
            Self::framed() || rest.len() == 0,
        ensures
            Self::parse(Self::wire(v) + rest) == Ok::<(Self::Model, nat), Error>(
                (v, Self::wire(v).len()),
            ),
    ;

    /// Reading a written value that was cut short fails for want of input,
    /// where the grammar marks the end of a value.
    proof fn lemma_truncated(v: Self::Model, k: nat)
        requires
            Self::valid(v),
            Self::sequenced(),
            k < Self::wire(v).len(),
        ensures
            Self::framed() ==> Self::parse(Self::wire(v).take(k as int)) == Err::<
                (Self::Model, nat),
                Error,
            >(Error::Io),
    ;
}

/// Appends `value` to `out`, or leaves `out` as it is when `value` cannot be
/// written. Returns the number of bytes appended.
pub fn tls_serialize<T: Codec>(value: &T, out: &mut Vec<u8>) -> (r: Result<usize, Error>)
    ensures
        T::valid(value.model()) ==> r == Ok::<usize, Error>(T::wire(value.model()).len() as usize)
            && final(out)@ == old(out)@ + T::wire(value.model()),
        !T::valid(value.model()) ==> r == Err::<usize, Error>(
            Error::Format(FormatError::LengthMismatch),
        ) && final(out)@ == old(out)@,
{
    match value.tls_serialize_detached() {
        Ok(mut bytes) => {
            let n: usize = bytes.len();
            out.append(&mut bytes);
            Ok(n)
        },
        Err(e) => Err(e),
    }
}

/// Writes `head`, then `tail`, which is what has already been written of the
/// parts that follow.
pub fn prepend<A: Codec>(head: &A, tail: Result<Vec<u8>, Error>) -> (r: Result<Vec<u8>, Error>)
    ensures
        A::valid(head.model()) && tail is Ok ==> r is Ok && r->Ok_0@ == A::wire(head.model())
            + tail->Ok_0@,
        A::valid(head.model()) && tail is Err ==> r is Err && r->Err_0 == tail->Err_0,
        !A::valid(head.model()) ==> r is Err && r->Err_0 == Error::Format(
            FormatError::LengthMismatch,
        ),
{
    match head.tls_serialize_detached() {
        Ok(mut bytes) => match tail {
            Ok(mut rest) => {
                bytes.append(&mut rest);
                Ok(bytes)
            },
            Err(e) => Err(e),
        },
        Err(e) => Err(e),
    }
}

/// Reads a `B` from `bytes` after the first `at` bytes, and counts those in.
/// Where `bytes` has no `at` bytes, the input has ended.
pub fn read_after<B: Codec>(bytes: &[u8], at: usize) -> (r: Result<(B, usize), Error>)
    ensures
        at <= bytes@.len() ==> match B::parse(bytes@.skip(at as int)) {
            Ok((v, n)) => r is Ok && r->Ok_0.0.model() == v && r->Ok_0.1 == at + n && at + n
                <= bytes@.len(),
            Err(e) => r is Err && r->Err_0 == e,
        },
        at > bytes@.len() ==> r is Err && r->Err_0 == Error::Io,
{
    if at > bytes.len() {
        return Err(Error::Io);
    }
    let tail = vstd::slice::slice_subrange(bytes, at, bytes.len());
    assert(tail@ == bytes@.skip(at as int));
    match B::tls_deserialize(tail) {
        Ok((value, n)) => Ok((value, at + n)),
        Err(e) => Err(e),
    }
}

/// One byte.
impl Codec for u8 {
    type Model = u8;

    open spec fn model(&self) -> u8 {
        *self
    }

    open spec fn wire(v: u8) -> Seq<u8> {
        seq![v]
    }

    open spec fn valid(v: u8) -> bool {
        true
    }

    open spec fn parse(bytes: Seq<u8>) -> Result<(u8, nat), Error> {
        if bytes.len() >= 1 {
            Ok((bytes[0], 1nat))
        } else {
            Err(Error::Io)
        }
    }

    open spec fn framed() -> bool {
        true
    }

    open spec fn sequenced() -> bool {
        true
    }

    fn tls_serialized_len(&self) -> (n: usize) {
        1
    }

    fn tls_serialize_detached(&self) -> (r: Result<Vec<u8>, Error>) {
        let mut out: Vec<u8> = Vec::new();
        out.push(*self);
        assert(out@ == seq![*self]);
        Ok(out)
    }

    fn tls_deserialize(bytes: &[u8]) -> (r: Result<(Self, usize), Error>) {
        if bytes.len() >= 1 {
            Ok((bytes[0], 1))
        } else {
            Err(Error::Io)
        }
    }

    proof fn lemma_round_trip(v: u8, rest: Seq<u8>) {
    }

    proof fn lemma_truncated(v: u8, k: nat) {
    }
}

/// The two bytes of `v`, most significant first.
pub open spec fn be16(v: u16) -> Seq<u8> {
    seq![(v / 256) as u8, (v % 256) as u8]
}

/// The number that two bytes spell, most significant first.
pub open spec fn from_be16(b0: u8, b1: u8) -> u16 {
    (b0 * 256 + b1) as u16
}

/// The four bytes of `v`, most significant first.
pub open spec fn be32(v: u32) -> Seq<u8> {
    seq![
        (v / 16777216) as u8,
        (v / 65536 % 256) as u8,
        (v / 256 % 256) as u8,
        (v % 256) as u8,
    ]
}

/// The number that four bytes spell, most significant first.
pub open spec fn from_be32(b0: u8, b1: u8, b2: u8, b3: u8) -> u32 {
    (b0 * 16777216 + b1 * 65536 + b2 * 256 + b3) as u32
}

/// Sixteen bits, most significant byte first.
impl Codec for u16 {
    type Model = u16;

    open spec fn model(&self) -> u16 {
        *self
    }

    open spec fn wire(v: u16) -> Seq<u8> {
        be16(v)
    }

    open spec fn valid(v: u16) -> bool {
        true
    }

    open spec fn parse(bytes: Seq<u8>) -> Result<(u16, nat), Error> {
        if bytes.len() >= 2 {
            Ok((from_be16(bytes[0], bytes[1]), 2nat))
        } else {
            Err(Error::Io)
        }
    }

    open spec fn framed() -> bool {
        true
    }

    open spec fn sequenced() -> bool {
        true
    }

    fn tls_serialized_len(&self) -> (n: usize) {
        2
    }

    fn tls_serialize_detached(&self) -> (r: Result<Vec<u8>, Error>) {
        let v: u16 = *self;
        let mut out: Vec<u8> = Vec::new();
        out.push((v / 256) as u8);
        out.push((v % 256) as u8);
        assert(out@ == be16(v));
        Ok(out)
    }

    fn tls_deserialize(bytes: &[u8]) -> (r: Result<(Self, usize), Error>) {
        if bytes.len() >= 2 {
            let hi: u16 = bytes[0] as u16;
            let lo: u16 = bytes[1] as u16;
            Ok((hi * 256 + lo, 2))
        } else {
            Err(Error::Io)
        }
    }

    proof fn lemma_round_trip(v: u16, rest: Seq<u8>) {
        let w = be16(v) + rest;
        assert(w[0] == be16(v)[0] && w[1] == be16(v)[1]);
    }

    proof fn lemma_truncated(v: u16, k: nat) {
    }
}

/// Thirty-two bits, most significant byte first.
impl Codec for u32 {
    type Model = u32;

    open spec fn model(&self) -> u32 {
        *self
    }

    open spec fn wire(v: u32) -> Seq<u8> {
        be32(v)
    }

    open spec fn valid(v: u32) -> bool {
        true
    }

    open spec fn parse(bytes: Seq<u8>) -> Result<(u32, nat), Error> {
        if bytes.len() >= 4 {
            Ok((from_be32(bytes[0], bytes[1], bytes[2], bytes[3]), 4nat))
        } else {
            Err(Error::Io)
        }
    }

    open spec fn framed() -> bool {
        true
    }

    open spec fn sequenced() -> bool {
        true
    }

    fn tls_serialized_len(&self) -> (n: usize) {
        4
    }

    fn tls_serialize_detached(&self) -> (r: Result<Vec<u8>, Error>) {
        let v: u32 = *self;
        let mut out: Vec<u8> = Vec::new();
        out.push((v / 16777216) as u8);
        out.push((v / 65536 % 256) as u8);
        out.push((v / 256 % 256) as u8);
        out.push((v % 256) as u8);
        assert(out@ == be32(v));
        Ok(out)
    }

    fn tls_deserialize(bytes: &[u8]) -> (r: Result<(Self, usize), Error>) {
        if bytes.len() >= 4 {
            let b0: u32 = bytes[0] as u32;
            let b1: u32 = bytes[1] as u32;
            let b2: u32 = bytes[2] as u32;
            let b3: u32 = bytes[3] as u32;
            Ok((b0 * 16777216 + b1 * 65536 + b2 * 256 + b3, 4))
        } else {
            Err(Error::Io)
        }
    }

    proof fn lemma_round_trip(v: u32, rest: Seq<u8>) {
        let w = be32(v) + rest;
        assert(w[0] == be32(v)[0] && w[1] == be32(v)[1] && w[2] == be32(v)[2] && w[3] == be32(
            v,
        )[3]);
    }

    proof fn lemma_truncated(v: u32, k: nat) {
    }
}

/// One value after another.
impl<A: Codec, B: Codec> Codec for (A, B) {
    type Model = (A::Model, B::Model);

    open spec fn model(&self) -> (A::Model, B::Model) {
        (self.0.model(), self.1.model())
    }

    open spec fn wire(v: (A::Model, B::Model)) -> Seq<u8> {
        A::wire(v.0) + B::wire(v.1)
    }

    open spec fn valid(v: (A::Model, B::Model)) -> bool {
        A::valid(v.0) && B::valid(v.1)
    }

    open spec fn parse(bytes: Seq<u8>) -> Result<((A::Model, B::Model), nat), Error> {
        match A::parse(bytes) {
            Ok((a, n)) => match B::parse(bytes.skip(n as int)) {
                Ok((b, m)) => Ok(((a, b), n + m)),
                Err(e) => Err(e),
            },
            Err(e) => Err(e),
        }
    }

    open spec fn framed() -> bool {
        B::framed()
    }

    open spec fn sequenced() -> bool {
        A::framed() && A::sequenced() && B::sequenced()
    }

    fn tls_serialized_len(&self) -> (n: usize) {
        self.0.tls_serialized_len() + self.1.tls_serialized_len()
    }

    fn tls_serialize_detached(&self) -> (r: Result<Vec<u8>, Error>) {
        prepend(&self.0, self.1.tls_serialize_detached())
    }

    fn tls_deserialize(bytes: &[u8]) -> (r: Result<(Self, usize), Error>) {
        match A::tls_deserialize(bytes) {
            Ok((a, n)) => match read_after::<B>(bytes, n) {
                Ok((b, m)) => Ok(((a, b), m)),
                Err(e) => Err(e),
            },
            Err(e) => Err(e),
        }
    }

    proof fn lemma_round_trip(v: (A::Model, B::Model), rest: Seq<u8>) {
        let wa = A::wire(v.0);
        let wb = B::wire(v.1);
        assert((wa + wb) + rest =~= wa + (wb + rest));
        A::lemma_round_trip(v.0, wb + rest);
        assert((wa + (wb + rest)).skip(wa.len() as int) =~= wb + rest);
        B::lemma_round_trip(v.1, rest);
    }

    proof fn lemma_truncated(v: (A::Model, B::Model), k: nat) {
        let wa = A::wire(v.0);
        let wb = B::wire(v.1);
        if k < wa.len() {
            assert((wa + wb).take(k as int) =~= wa.take(k as int));
            A::lemma_truncated(v.0, k);
        } else {
            let cut = wb.take(k - wa.len());
            assert((wa + wb).take(k as int) =~= wa + cut);
            A::lemma_round_trip(v.0, cut);
            assert((wa + cut).skip(wa.len() as int) =~= cut);
            B::lemma_truncated(v.1, (k - wa.len()) as nat);
        }
    }
}

} // verus!
