//! The artifacts of the group-key-agreement protocol, carried as the bytes
//! that the protocol engine wrote. This layer does not look inside them: each
//! is read whole from the bytes cut out for it, and written back unchanged.

use vstd::prelude::*;
use crate::codec::Codec;
use crate::error::Error;

verus! {

/// A key package, as its bytes.
#[derive(Debug, PartialEq, Eq)]
pub struct KeyPackageBytes {
    bytes: Vec<u8>,
}

impl View for KeyPackageBytes {
    type V = Seq<u8>;

    closed spec fn view(&self) -> Seq<u8> {
        self.bytes@
    }
}

impl KeyPackageBytes {
    /// Takes the bytes as they are.
    pub fn new(bytes: Vec<u8>) -> (r: Self)
        ensures
            r@ == bytes@,
    {
        Self { bytes }
    }

    /// The bytes held.
    pub fn as_slice(&self) -> (r: &[u8])
        ensures
            r@ == self@,
    {
        self.bytes.as_slice()
    }

    /// Gives the bytes back.
    pub fn into_vec(self) -> (r: Vec<u8>)
        ensures
            r@ == self@,
    {
        self.bytes
    }
}

impl Codec for KeyPackageBytes {
    type Model = Seq<u8>;

    open spec fn model(&self) -> Seq<u8> {
        self@
    }

    open spec fn wire(v: Seq<u8>) -> Seq<u8> {
        v
    }

    open spec fn valid(v: Seq<u8>) -> bool {
        true
    }

    open spec fn parse(bytes: Seq<u8>) -> Result<(Seq<u8>, nat), Error> {
        Ok((bytes, bytes.len()))
    }

    open spec fn framed() -> bool {
        false
    }

    open spec fn sequenced() -> bool {
        true
    }

    fn tls_serialized_len(&self) -> (n: usize) {
        self.bytes.len()
    }

    fn tls_serialize_detached(&self) -> (r: Result<Vec<u8>, Error>) {
        Ok(vstd::slice::slice_to_vec(self.bytes.as_slice()))
    }

    fn tls_deserialize(bytes: &[u8]) -> (r: Result<(Self, usize), Error>) {
        Ok((Self::new(vstd::slice::slice_to_vec(bytes)), bytes.len()))
    }

    proof fn lemma_round_trip(v: Seq<u8>, rest: Seq<u8>) {
        assert(v + rest =~= v);
    }

    proof fn lemma_truncated(v: Seq<u8>, k: nat) {
    }
}

/// A welcome message, as its bytes.
#[derive(Debug, PartialEq, Eq)]
pub struct WelcomeBytes {
    bytes: Vec<u8>,
}

impl View for WelcomeBytes {
    type V = Seq<u8>;

    closed spec fn view(&self) -> Seq<u8> {
        self.bytes@
    }
}

impl WelcomeBytes {
    /// Takes the bytes as they are.
    pub fn new(bytes: Vec<u8>) -> (r: Self)
        ensures
            r@ == bytes@,
    {
        Self { bytes }
    }

    /// The bytes held.
    pub fn as_slice(&self) -> (r: &[u8])
        ensures
            r@ == self@,
    {
        self.bytes.as_slice()
    }

    /// Gives the bytes back.
    pub fn into_vec(self) -> (r: Vec<u8>)
        ensures
            r@ == self@,
    {
        self.bytes
    }
}

impl Codec for WelcomeBytes {
    type Model = Seq<u8>;

    open spec fn model(&self) -> Seq<u8> {
        self@
    }

    open spec fn wire(v: Seq<u8>) -> Seq<u8> {
        v
    }

    open spec fn valid(v: Seq<u8>) -> bool {
        true
    }

    open spec fn parse(bytes: Seq<u8>) -> Result<(Seq<u8>, nat), Error> {
        Ok((bytes, bytes.len()))
    }

    open spec fn framed() -> bool {
        false
    }

    open spec fn sequenced() -> bool {
        true
    }

    fn tls_serialized_len(&self) -> (n: usize) {
        self.bytes.len()
    }

    fn tls_serialize_detached(&self) -> (r: Result<Vec<u8>, Error>) {
        Ok(vstd::slice::slice_to_vec(self.bytes.as_slice()))
    }

    fn tls_deserialize(bytes: &[u8]) -> (r: Result<(Self, usize), Error>) {
        Ok((Self::new(vstd::slice::slice_to_vec(bytes)), bytes.len()))
    }

    proof fn lemma_round_trip(v: Seq<u8>, rest: Seq<u8>) {
        assert(v + rest =~= v);
    }

    proof fn lemma_truncated(v: Seq<u8>, k: nat) {
    }
}

/// A protocol message in the form it has when it has just been received, as its bytes.
#[derive(Debug, PartialEq, Eq)]
pub struct MlsMessageInBytes {
    bytes: Vec<u8>,
}

impl View for MlsMessageInBytes {
    type V = Seq<u8>;

    closed spec fn view(&self) -> Seq<u8> {
        self.bytes@
    }
}

impl MlsMessageInBytes {
    /// Takes the bytes as they are.
    pub fn new(bytes: Vec<u8>) -> (r: Self)
        ensures
            r@ == bytes@,
    {
        Self { bytes }
    }

    /// The bytes held.
    pub fn as_slice(&self) -> (r: &[u8])
        ensures
            r@ == self@,
    {
        self.bytes.as_slice()
    }

    /// Gives the bytes back.
    pub fn into_vec(self) -> (r: Vec<u8>)
        ensures
            r@ == self@,
    {
        self.bytes
    }
}

impl Codec for MlsMessageInBytes {
    type Model = Seq<u8>;

    open spec fn model(&self) -> Seq<u8> {
        self@
    }

    open spec fn wire(v: Seq<u8>) -> Seq<u8> {
        v
    }

    open spec fn valid(v: Seq<u8>) -> bool {
        true
    }

    open spec fn parse(bytes: Seq<u8>) -> Result<(Seq<u8>, nat), Error> {
        Ok((bytes, bytes.len()))
    }

    open spec fn framed() -> bool {
        false
    }

    open spec fn sequenced() -> bool {
        true
    }

    fn tls_serialized_len(&self) -> (n: usize) {
        self.bytes.len()
    }

    fn tls_serialize_detached(&self) -> (r: Result<Vec<u8>, Error>) {
        Ok(vstd::slice::slice_to_vec(self.bytes.as_slice()))
    }

    fn tls_deserialize(bytes: &[u8]) -> (r: Result<(Self, usize), Error>) {
        Ok((Self::new(vstd::slice::slice_to_vec(bytes)), bytes.len()))
    }

    proof fn lemma_round_trip(v: Seq<u8>, rest: Seq<u8>) {
        assert(v + rest =~= v);
    }

    proof fn lemma_truncated(v: Seq<u8>, k: nat) {
    }
}

/// A protocol message in the form it has when it is about to be sent, as its bytes.
#[derive(Debug, PartialEq, Eq)]
pub struct MlsMessageOutBytes {
    bytes: Vec<u8>,
}

impl View for MlsMessageOutBytes {
    type V = Seq<u8>;

    closed spec fn view(&self) -> Seq<u8> {
        self.bytes@
    }
}

impl MlsMessageOutBytes {
    /// Takes the bytes as they are.
    pub fn new(bytes: Vec<u8>) -> (r: Self)
        ensures
            r@ == bytes@,
    {
        Self { bytes }
    }

    /// The bytes held.
    pub fn as_slice(&self) -> (r: &[u8])
        ensures
            r@ == self@,
    {
        self.bytes.as_slice()
    }

    /// Gives the bytes back.
    pub fn into_vec(self) -> (r: Vec<u8>)
        ensures
            r@ == self@,
    {
        self.bytes
    }
}

impl Codec for MlsMessageOutBytes {
    type Model = Seq<u8>;

    open spec fn model(&self) -> Seq<u8> {
        self@
    }

    open spec fn wire(v: Seq<u8>) -> Seq<u8> {
        v
    }

    open spec fn valid(v: Seq<u8>) -> bool {
        true
    }

    open spec fn parse(bytes: Seq<u8>) -> Result<(Seq<u8>, nat), Error> {
        Ok((bytes, bytes.len()))
    }

    open spec fn framed() -> bool {
        false
    }

    open spec fn sequenced() -> bool {
        true
    }

    fn tls_serialized_len(&self) -> (n: usize) {
        self.bytes.len()
    }

    fn tls_serialize_detached(&self) -> (r: Result<Vec<u8>, Error>) {
        Ok(vstd::slice::slice_to_vec(self.bytes.as_slice()))
    }

    fn tls_deserialize(bytes: &[u8]) -> (r: Result<(Self, usize), Error>) {
        Ok((Self::new(vstd::slice::slice_to_vec(bytes)), bytes.len()))
    }

    proof fn lemma_round_trip(v: Seq<u8>, rest: Seq<u8>) {
        assert(v + rest =~= v);
    }

    proof fn lemma_truncated(v: Seq<u8>, k: nat) {
    }
}

} // verus!
