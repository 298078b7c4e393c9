//! Length-prefixed lists of primitive values, held in the vectors of
//! `tls_codec`.

use vstd::prelude::*;
use tls_codec::{TlsByteVecU32, TlsVecU16};
use crate::codec::{be16, be32, from_be16, from_be32, Codec};
use crate::error::{Error, FormatError};

verus! {

/// `tls_codec::TlsByteVecU32`, a byte string. Nothing of its inside is known
/// here but what `byte_vec_contents` names.
#[verifier::external_type_specification]
#[verifier::external_body]
pub struct ExTlsByteVecU32(tls_codec::TlsByteVecU32);

/// `tls_codec::TlsVecU16`, a list. Nothing of its inside is known here but
/// what `id_vec_contents` names.
#[verifier::external_type_specification]
#[verifier::external_body]
#[verifier::reject_recursive_types(T)]
pub struct ExTlsVecU16<T>(tls_codec::TlsVecU16<T>);

/// The bytes that a byte vector holds, in order.
pub uninterp spec fn byte_vec_contents(v: TlsByteVecU32) -> Seq<u8>;

/// The identifiers that a list holds, in order.
pub uninterp spec fn id_vec_contents(v: TlsVecU16<u16>) -> Seq<u16>;

/// `TlsByteVecU32::new`: the vector made holds exactly the bytes given, which
/// the outside function stores as they are.
#[verifier::external_body]
fn byte_vec_new(bytes: Vec<u8>) -> (r: TlsByteVecU32)
    ensures
        byte_vec_contents(r) == bytes@,
{
    TlsByteVecU32::new(bytes)
}

/// `TlsByteVecU32::as_slice`: the slice returned is the stored bytes.
#[verifier::external_body]
fn byte_vec_as_slice(v: &TlsByteVecU32) -> (r: &[u8])
    ensures
        r@ == byte_vec_contents(*v),
{
    v.as_slice()
}

/// `TlsVecU16::new`: the list made holds exactly the identifiers given, which
/// the outside function stores as they are.
#[verifier::external_body]
fn id_vec_new(ids: Vec<u16>) -> (r: TlsVecU16<u16>)
    ensures
        id_vec_contents(r) == ids@,
{
    TlsVecU16::new(ids)
}

/// `TlsVecU16::as_slice`: the slice returned is the stored identifiers.
#[verifier::external_body]
fn id_vec_as_slice(v: &TlsVecU16<u16>) -> (r: &[u16])
    ensures
        r@ == id_vec_contents(*v),
{
    v.as_slice()
}

/// A byte string: its length in four bytes, then the bytes.
impl Codec for TlsByteVecU32 {
    type Model = Seq<u8>;

    open spec fn model(&self) -> Seq<u8> {
        byte_vec_contents(*self)
    }

    open spec fn wire(v: Seq<u8>) -> Seq<u8> {
        be32(v.len() as u32) + v
    }

    open spec fn valid(v: Seq<u8>) -> bool {
        v.len() <= u32::MAX
    }

    open spec fn parse(bytes: Seq<u8>) -> Result<(Seq<u8>, nat), Error> {
        if bytes.len() < 4 {
            Err(Error::Io)
        } else {
            let len = from_be32(bytes[0], bytes[1], bytes[2], bytes[3]);
            if bytes.len() - 4 < len {
                Err(Error::Io)
            } else {
                Ok((bytes.subrange(4, 4 + len), (4 + len) as nat))
            }
        }
    }

    open spec fn framed() -> bool {
        true
    }

    open spec fn sequenced() -> bool {
        true
    }

    fn tls_serialized_len(&self) -> (n: usize) {
        4 + byte_vec_as_slice(self).len()
    }

    fn tls_serialize_detached(&self) -> (r: Result<Vec<u8>, Error>) {
        let bytes = byte_vec_as_slice(self);
        if bytes.len() > 0xffff_ffff {
            return Err(Error::Format(FormatError::LengthMismatch));
        }
        let len: u32 = bytes.len() as u32;
        let mut out: Vec<u8> = Vec::new();
        out.push((len / 16777216) as u8);
        out.push((len / 65536 % 256) as u8);
        out.push((len / 256 % 256) as u8);
        out.push((len % 256) as u8);
        assert(out@ == be32(len));
        let mut i: usize = 0;
        while i < bytes.len()
            invariant
                i <= bytes@.len(),
                out@ == be32(len) + bytes@.take(i as int),
            decreases bytes@.len() - i,
        {
            out.push(bytes[i]);
            assert(bytes@.take(i + 1) == bytes@.take(i as int).push(bytes@[i as int]));
            i = i + 1;
        }
        assert(bytes@.take(i as int) == bytes@);
        Ok(out)
    }

    fn tls_deserialize(bytes: &[u8]) -> (r: Result<(Self, usize), Error>) {
        match u32::tls_deserialize(bytes) {
            Ok((len, _)) => {
                let len: usize = len as usize;
                if bytes.len() - 4 < len {
                    Err(Error::Io)
                } else {
                    let cut = vstd::slice::slice_subrange(bytes, 4, 4 + len);
                    let held = vstd::slice::slice_to_vec(cut);
                    Ok((byte_vec_new(held), 4 + len))
                }
            },
            Err(e) => Err(e),
        }
    }

    proof fn lemma_round_trip(v: Seq<u8>, rest: Seq<u8>) {
        let len = v.len() as u32;
        let w = be32(len) + v + rest;
        assert(w[0] == be32(len)[0] && w[1] == be32(len)[1] && w[2] == be32(len)[2] && w[3]
            == be32(len)[3]);
        assert(w.subrange(4, 4 + len) =~= v);
    }

    proof fn lemma_truncated(v: Seq<u8>, k: nat) {
        let len = v.len() as u32;
        let w = (be32(len) + v).take(k as int);
        if k >= 4 {
            assert(w[0] == be32(len)[0] && w[1] == be32(len)[1] && w[2] == be32(len)[2] && w[3]
                == be32(len)[3]);
        }
    }
}

/// The bytes of a list of identifiers, two for each, most significant first.
pub open spec fn id_bytes(ids: Seq<u16>) -> Seq<u8> {
    Seq::new(
        2 * ids.len(),
        |i: int|
            if i % 2 == 0 {
                (ids[i / 2] / 256) as u8
            } else {
                (ids[i / 2] % 256) as u8
            },
    )
}

/// The identifiers that the first `2 * count` bytes spell.
pub open spec fn ids_of(bytes: Seq<u8>, count: nat) -> Seq<u16> {
    Seq::new(count, |i: int| from_be16(bytes[2 * i], bytes[2 * i + 1]))
}

/// The two bytes at the place of the `i`-th identifier spell it.
pub proof fn lemma_id_bytes_at(ids: Seq<u16>, i: int)
    requires
        0 <= i < ids.len(),
    ensures
        id_bytes(ids)[2 * i] == (ids[i] / 256) as u8,
        id_bytes(ids)[2 * i + 1] == (ids[i] % 256) as u8,
        from_be16(id_bytes(ids)[2 * i], id_bytes(ids)[2 * i + 1]) == ids[i],
{
    assert((2 * i) % 2 == 0 && (2 * i) / 2 == i);
    assert((2 * i + 1) % 2 == 1 && (2 * i + 1) / 2 == i);
}

/// A list of identifiers: the number of bytes that follow, in two bytes, then
/// two bytes for each identifier. A reader that is told an odd number of bytes
/// reads whole identifiers until it has covered them.
impl Codec for TlsVecU16<u16> {
    type Model = Seq<u16>;

    open spec fn model(&self) -> Seq<u16> {
        id_vec_contents(*self)
    }

    open spec fn wire(v: Seq<u16>) -> Seq<u8> {
        be16((2 * v.len()) as u16) + id_bytes(v)
    }

    open spec fn valid(v: Seq<u16>) -> bool {
        2 * v.len() <= u16::MAX
    }

    open spec fn parse(bytes: Seq<u8>) -> Result<(Seq<u16>, nat), Error> {
        if bytes.len() < 2 {
            Err(Error::Io)
        } else {
            let len = from_be16(bytes[0], bytes[1]);
            let count = ((len + 1) / 2) as nat;
            if bytes.len() - 2 < 2 * count {
                Err(Error::Io)
            } else {
                Ok((ids_of(bytes.skip(2), count), 2 + 2 * count))
            }
        }
    }

    open spec fn framed() -> bool {
        true
    }

    open spec fn sequenced() -> bool {
        true
    }

    fn tls_serialized_len(&self) -> (n: usize) {
        2 + 2 * id_vec_as_slice(self).len()
    }

    fn tls_serialize_detached(&self) -> (r: Result<Vec<u8>, Error>) {
        let ids = id_vec_as_slice(self);
        if ids.len() > 32767 {
            return Err(Error::Format(FormatError::LengthMismatch));
        }
        let len: u16 = (2 * ids.len()) as u16;
        let mut out: Vec<u8> = Vec::new();
        out.push((len / 256) as u8);
        out.push((len % 256) as u8);
        let mut i: usize = 0;
        while i < ids.len()
            invariant
                i <= ids@.len() <= 32767,
                out@.len() == 2 + 2 * i,
                out@[0] == be16(len)[0],
                out@[1] == be16(len)[1],
                forall|j: int| 0 <= j < 2 * i ==> out@[2 + j] == id_bytes(ids@)[j],
            decreases ids@.len() - i,
        {
            let id: u16 = ids[i];
            out.push((id / 256) as u8);
            out.push((id % 256) as u8);
            i = i + 1;
        }
        assert(out@ =~= be16(len) + id_bytes(ids@));
        Ok(out)
    }

    fn tls_deserialize(bytes: &[u8]) -> (r: Result<(Self, usize), Error>) {
        match u16::tls_deserialize(bytes) {
            Ok((len, _)) => {
                let count: usize = ((len as usize) + 1) / 2;
                if bytes.len() - 2 < 2 * count {
                    Err(Error::Io)
                } else {
                    let mut ids: Vec<u16> = Vec::new();
                    let mut i: usize = 0;
                    while i < count
                        invariant
                            i <= count <= 32768,
                            2 + 2 * count <= bytes@.len(),
                            ids@ == ids_of(bytes@.skip(2), i as nat),
                        decreases count - i,
                    {
                        let hi: u16 = bytes[2 + 2 * i] as u16;
                        let lo: u16 = bytes[3 + 2 * i] as u16;
                        ids.push(hi * 256 + lo);
                        assert(ids@ =~= ids_of(bytes@.skip(2), (i + 1) as nat));
                        i = i + 1;
                    }
                    Ok((id_vec_new(ids), 2 + 2 * count))
                }
            },
            Err(e) => Err(e),
        }
    }

    proof fn lemma_round_trip(v: Seq<u16>, rest: Seq<u8>) {
        let len = (2 * v.len()) as u16;
        let w = be16(len) + id_bytes(v) + rest;
        assert(w[0] == be16(len)[0] && w[1] == be16(len)[1]);
        assert(from_be16(w[0], w[1]) == len);
        assert((len + 1) / 2 == v.len());
        let tail = w.skip(2);
        assert(tail.len() >= 2 * v.len());
        assert forall|i: int| 0 <= i < v.len() implies #[trigger] ids_of(tail, v.len())[i]
            == v[i] by {
            lemma_id_bytes_at(v, i);
            assert(tail[2 * i] == id_bytes(v)[2 * i]);
            assert(tail[2 * i + 1] == id_bytes(v)[2 * i + 1]);
        }
        assert(ids_of(tail, v.len()) =~= v);
    }

    proof fn lemma_truncated(v: Seq<u16>, k: nat) {
        let len = (2 * v.len()) as u16;
        let w = (be16(len) + id_bytes(v)).take(k as int);
        if k >= 2 {
            assert(w[0] == be16(len)[0] && w[1] == be16(len)[1]);
        }
    }
}

} // verus!
