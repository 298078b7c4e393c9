//! A value behind a length prefix.

use vstd::prelude::*;
use crate::codec::{be32, from_be32, prepend, Codec};
use crate::error::{Error, FormatError};

verus! {

/// A value that is written as its own byte length, in four bytes, followed by
/// its bytes, so that a reader can cut it out without knowing its grammar.
#[derive(Debug, PartialEq, Eq)]
pub struct TlsSerialized<T> {
    inner: T,
}

impl<T> TlsSerialized<T> {
    /// The wrapped value.
    pub closed spec fn inner(&self) -> T {
        self.inner
    }

    /// Wraps `inner`.
    pub fn new(inner: T) -> (r: Self)
        ensures
            r.inner() == inner,
    {
        Self { inner }
    }

    /// Gives the wrapped value back.
    pub fn unwrap(self) -> (r: T)
        ensures
            r == self.inner(),
    {
        self.inner
    }
}

/// What reading a wrapped value off the front of `bytes` gives. The declared
/// length is read first, and exactly that many bytes are cut out; the wrapped
/// value is read from those alone, and what it leaves of them is dropped.
pub open spec fn cut_out<T: Codec>(bytes: Seq<u8>) -> Result<(T::Model, nat), Error> {
    if bytes.len() < 4 {
        Err(Error::Io)
    } else {
        let len = from_be32(bytes[0], bytes[1], bytes[2], bytes[3]);
        if bytes.len() - 4 < len {
            Err(Error::Io)
        } else {
            match T::parse(bytes.subrange(4, 4 + len)) {
                Ok((v, n)) => Ok((v, (4 + len) as nat)),
                Err(e) => Err(Error::Format(FormatError::InnerDecodeFailed)),
            }
        }
    }
}

impl<T: Codec> Codec for TlsSerialized<T> {
    type Model = T::Model;

    open spec fn model(&self) -> T::Model {
        self.inner().model()
    }

    open spec fn wire(v: T::Model) -> Seq<u8> {
        be32(T::wire(v).len() as u32) + T::wire(v)
    }

    open spec fn valid(v: T::Model) -> bool {
        T::valid(v) && T::wire(v).len() <= u32::MAX
    }

    open spec fn parse(bytes: Seq<u8>) -> Result<(T::Model, nat), Error> {
        cut_out::<T>(bytes)
    }

    open spec fn framed() -> bool {
        true
    }

    open spec fn sequenced() -> bool {
        T::sequenced()
    }

    fn tls_serialized_len(&self) -> (n: usize) {
        4 + self.inner.tls_serialized_len()
    }

    fn tls_serialize_detached(&self) -> (r: Result<Vec<u8>, Error>) {
        match self.inner.tls_serialize_detached() {
            Ok(bytes) => {
                if bytes.len() > 0xffff_ffff {
                    Err(Error::Format(FormatError::LengthMismatch))
                } else {
                    let len: u32 = bytes.len() as u32;
                    prepend(&len, Ok(bytes))
                }
            },
            Err(e) => Err(e),
        }
    }

    fn tls_deserialize(bytes: &[u8]) -> (r: Result<(Self, usize), Error>) {
        match u32::tls_deserialize(bytes) {
            Ok((len, _)) => {
                let len: usize = len as usize;
                if bytes.len() - 4 < len {
                    Err(Error::Io)
                } else {
                    let cut = vstd::slice::slice_subrange(bytes, 4, 4 + len);
                    match T::tls_deserialize(cut) {
                        Ok((inner, _)) => Ok((Self::new(inner), 4 + len)),
                        Err(_) => Err(Error::Format(FormatError::InnerDecodeFailed)),
                    }
                }
            },
            Err(e) => Err(e),
        }
    }

    proof fn lemma_round_trip(v: T::Model, rest: Seq<u8>) {
        let body = T::wire(v);
        let len = body.len() as u32;
        let w = be32(len) + body + rest;
        assert(w[0] == be32(len)[0] && w[1] == be32(len)[1] && w[2] == be32(len)[2] && w[3]
            == be32(len)[3]);
        assert(w.subrange(4, 4 + len) =~= body);
        assert(body + Seq::<u8>::empty() =~= body);
        T::lemma_round_trip(v, Seq::<u8>::empty());
    }

    proof fn lemma_truncated(v: T::Model, k: nat) {
        let body = T::wire(v);
        let len = body.len() as u32;
        let w = (be32(len) + body).take(k as int);
        if k >= 4 {
            assert(w[0] == be32(len)[0] && w[1] == be32(len)[1] && w[2] == be32(len)[2] && w[3]
                == be32(len)[3]);
        }
    }
}

/// The four bytes in front of a wrapped value spell the number of bytes that
/// the value itself is written as, and exactly that many bytes follow them.
pub proof fn lemma_prefix_is_length<T: Codec>(v: T::Model)
    requires
        TlsSerialized::<T>::valid(v),
    ensures
        TlsSerialized::<T>::wire(v).len() == 4 + T::wire(v).len(),
        TlsSerialized::<T>::wire(v).subrange(0, 4) == be32(T::wire(v).len() as u32),
        from_be32(
            TlsSerialized::<T>::wire(v)[0],
            TlsSerialized::<T>::wire(v)[1],
            TlsSerialized::<T>::wire(v)[2],
            TlsSerialized::<T>::wire(v)[3],
        ) == T::wire(v).len(),
        TlsSerialized::<T>::wire(v).skip(4) == T::wire(v),
{
    let body = T::wire(v);
    let len = body.len() as u32;
    let w = be32(len) + body;
    assert(w.subrange(0, 4) =~= be32(len));
    assert(w.skip(4) =~= body);
}

} // verus!
