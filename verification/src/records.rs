//! The records that the events carry: a routing scope of team, channel and
//! device, then one payload. Fields are written in the order declared, with
//! nothing between them.

use vstd::prelude::*;
use tls_codec::{TlsByteVecU32, TlsVecU16};
use crate::codec::{prepend, Codec};
use crate::error::Error;
use crate::opaque::{KeyPackageBytes, MlsMessageInBytes, MlsMessageOutBytes, WelcomeBytes};
use crate::wrapper::TlsSerialized;

verus! {

/// A request to join a team, with the key package of the one who asks.
#[derive(Debug, PartialEq, Eq)]
pub struct JoinRequest {
    pub team: u32,
    pub key_package: TlsSerialized<KeyPackageBytes>,
}

/// What a `JoinRequest` stands for.
pub struct JoinRequestModel {
    pub team: u32,
    pub key_package: Seq<u8>,
}

/// The fields of a `JoinRequest`, in the order in which they are written.
pub type JoinRequestFields = (u32, TlsSerialized<KeyPackageBytes>);

impl JoinRequestModel {
    /// The fields in the order in which they are written.
    pub open spec fn fields(self) -> (u32, Seq<u8>) {
        (self.team, self.key_package)
    }

    /// The record that has these fields.
    pub open spec fn of(f: (u32, Seq<u8>)) -> Self {
        JoinRequestModel {
            team: f.0,
            key_package: f.1,
        }
    }
}

impl Codec for JoinRequest {
    type Model = JoinRequestModel;

    open spec fn model(&self) -> JoinRequestModel {
        JoinRequestModel {
            team: self.team,
            key_package: self.key_package.model(),
        }
    }

    open spec fn wire(v: JoinRequestModel) -> Seq<u8> {
        JoinRequestFields::wire(v.fields())
    }

    open spec fn valid(v: JoinRequestModel) -> bool {
        JoinRequestFields::valid(v.fields())
    }

    open spec fn parse(bytes: Seq<u8>) -> Result<(JoinRequestModel, nat), Error> {
        match JoinRequestFields::parse(bytes) {
            Ok((f, n)) => Ok((JoinRequestModel::of(f), n)),
            Err(e) => Err(e),
        }
    }

    open spec fn framed() -> bool {
        true
    }

    open spec fn sequenced() -> bool {
        true
    }

    fn tls_serialized_len(&self) -> (n: usize) {
        4 + self.key_package.tls_serialized_len()
    }

    fn tls_serialize_detached(&self) -> (r: Result<Vec<u8>, Error>) {
        let bytes = self.key_package.tls_serialize_detached();
        prepend(&self.team, bytes)
    }

    fn tls_deserialize(bytes: &[u8]) -> (r: Result<(Self, usize), Error>) {
        match JoinRequestFields::tls_deserialize(bytes) {
            Ok(((team, key_package), n)) => {
                let record = JoinRequest { team, key_package };
                Ok((record, n))
            },
            Err(e) => Err(e),
        }
    }

    proof fn lemma_round_trip(v: JoinRequestModel, rest: Seq<u8>) {
        JoinRequestFields::lemma_round_trip(v.fields(), rest);
    }

    proof fn lemma_truncated(v: JoinRequestModel, k: nat) {
        JoinRequestFields::lemma_truncated(v.fields(), k);
    }
}

/// The welcome message that admits a new member to a team.
#[derive(Debug, PartialEq, Eq)]
pub struct MlsWelcome {
    pub team: u32,
    pub welcome: TlsSerialized<WelcomeBytes>,
}

/// What a `MlsWelcome` stands for.
pub struct MlsWelcomeModel {
    pub team: u32,
    pub welcome: Seq<u8>,
}

/// The fields of a `MlsWelcome`, in the order in which they are written.
pub type MlsWelcomeFields = (u32, TlsSerialized<WelcomeBytes>);

impl MlsWelcomeModel {
    /// The fields in the order in which they are written.
    pub open spec fn fields(self) -> (u32, Seq<u8>) {
        (self.team, self.welcome)
    }

    /// The record that has these fields.
    pub open spec fn of(f: (u32, Seq<u8>)) -> Self {
        MlsWelcomeModel {
            team: f.0,
            welcome: f.1,
        }
    }
}

impl Codec for MlsWelcome {
    type Model = MlsWelcomeModel;

    open spec fn model(&self) -> MlsWelcomeModel {
        MlsWelcomeModel {
            team: self.team,
            welcome: self.welcome.model(),
        }
    }

    open spec fn wire(v: MlsWelcomeModel) -> Seq<u8> {
        MlsWelcomeFields::wire(v.fields())
    }

    open spec fn valid(v: MlsWelcomeModel) -> bool {
        MlsWelcomeFields::valid(v.fields())
    }

    open spec fn parse(bytes: Seq<u8>) -> Result<(MlsWelcomeModel, nat), Error> {
        match MlsWelcomeFields::parse(bytes) {
            Ok((f, n)) => Ok((MlsWelcomeModel::of(f), n)),
            Err(e) => Err(e),
        }
    }

    open spec fn framed() -> bool {
        true
    }

    open spec fn sequenced() -> bool {
        true
    }

    fn tls_serialized_len(&self) -> (n: usize) {
        4 + self.welcome.tls_serialized_len()
    }

    fn tls_serialize_detached(&self) -> (r: Result<Vec<u8>, Error>) {
        let bytes = self.welcome.tls_serialize_detached();
        prepend(&self.team, bytes)
    }

    fn tls_deserialize(bytes: &[u8]) -> (r: Result<(Self, usize), Error>) {
        match MlsWelcomeFields::tls_deserialize(bytes) {
            Ok(((team, welcome), n)) => {
                let record = MlsWelcome { team, welcome };
                Ok((record, n))
            },
            Err(e) => Err(e),
        }
    }

    proof fn lemma_round_trip(v: MlsWelcomeModel, rest: Seq<u8>) {
        MlsWelcomeFields::lemma_round_trip(v.fields(), rest);
    }

    proof fn lemma_truncated(v: MlsWelcomeModel, k: nat) {
        MlsWelcomeFields::lemma_truncated(v.fields(), k);
    }
}

/// A commit of a team, as received.
#[derive(Debug, PartialEq, Eq)]
pub struct MlsCommitIn {
    pub team: u32,
    pub commit: TlsSerialized<MlsMessageInBytes>,
}

/// What a `MlsCommitIn` stands for.
pub struct MlsCommitInModel {
    pub team: u32,
    pub commit: Seq<u8>,
}

/// The fields of a `MlsCommitIn`, in the order in which they are written.
pub type MlsCommitInFields = (u32, TlsSerialized<MlsMessageInBytes>);

impl MlsCommitInModel {
    /// The fields in the order in which they are written.
    pub open spec fn fields(self) -> (u32, Seq<u8>) {
        (self.team, self.commit)
    }

    /// The record that has these fields.
    pub open spec fn of(f: (u32, Seq<u8>)) -> Self {
        MlsCommitInModel {
            team: f.0,
            commit: f.1,
        }
    }
}

impl Codec for MlsCommitIn {
    type Model = MlsCommitInModel;

    open spec fn model(&self) -> MlsCommitInModel {
        MlsCommitInModel {
            team: self.team,
            commit: self.commit.model(),
        }
    }

    open spec fn wire(v: MlsCommitInModel) -> Seq<u8> {
        MlsCommitInFields::wire(v.fields())
    }

    open spec fn valid(v: MlsCommitInModel) -> bool {
        MlsCommitInFields::valid(v.fields())
    }

    open spec fn parse(bytes: Seq<u8>) -> Result<(MlsCommitInModel, nat), Error> {
        match MlsCommitInFields::parse(bytes) {
            Ok((f, n)) => Ok((MlsCommitInModel::of(f), n)),
            Err(e) => Err(e),
        }
    }

    open spec fn framed() -> bool {
        true
    }

    open spec fn sequenced() -> bool {
        true
    }

    fn tls_serialized_len(&self) -> (n: usize) {
        4 + self.commit.tls_serialized_len()
    }

    fn tls_serialize_detached(&self) -> (r: Result<Vec<u8>, Error>) {
        let bytes = self.commit.tls_serialize_detached();
        prepend(&self.team, bytes)
    }

    fn tls_deserialize(bytes: &[u8]) -> (r: Result<(Self, usize), Error>) {
        match MlsCommitInFields::tls_deserialize(bytes) {
            Ok(((team, commit), n)) => {
                let record = MlsCommitIn { team, commit };
                Ok((record, n))
            },
            Err(e) => Err(e),
        }
    }

    proof fn lemma_round_trip(v: MlsCommitInModel, rest: Seq<u8>) {
        MlsCommitInFields::lemma_round_trip(v.fields(), rest);
    }

    proof fn lemma_truncated(v: MlsCommitInModel, k: nat) {
        MlsCommitInFields::lemma_truncated(v.fields(), k);
    }
}

/// A commit of a team, to be sent.
#[derive(Debug, PartialEq, Eq)]
pub struct MlsCommitOut {
    pub team: u32,
    pub commit: TlsSerialized<MlsMessageOutBytes>,
}

/// What a `MlsCommitOut` stands for.
pub struct MlsCommitOutModel {
    pub team: u32,
    pub commit: Seq<u8>,
}

/// The fields of a `MlsCommitOut`, in the order in which they are written.
pub type MlsCommitOutFields = (u32, TlsSerialized<MlsMessageOutBytes>);

impl MlsCommitOutModel {
    /// The fields in the order in which they are written.
    pub open spec fn fields(self) -> (u32, Seq<u8>) {
        (self.team, self.commit)
    }

    /// The record that has these fields.
    pub open spec fn of(f: (u32, Seq<u8>)) -> Self {
        MlsCommitOutModel {
            team: f.0,
            commit: f.1,
        }
    }
}

impl Codec for MlsCommitOut {
    type Model = MlsCommitOutModel;

    open spec fn model(&self) -> MlsCommitOutModel {
        MlsCommitOutModel {
            team: self.team,
            commit: self.commit.model(),
        }
    }

    open spec fn wire(v: MlsCommitOutModel) -> Seq<u8> {
        MlsCommitOutFields::wire(v.fields())
    }

    open spec fn valid(v: MlsCommitOutModel) -> bool {
        MlsCommitOutFields::valid(v.fields())
    }

    open spec fn parse(bytes: Seq<u8>) -> Result<(MlsCommitOutModel, nat), Error> {
        match MlsCommitOutFields::parse(bytes) {
            Ok((f, n)) => Ok((MlsCommitOutModel::of(f), n)),
            Err(e) => Err(e),
        }
    }

    open spec fn framed() -> bool {
        true
    }

    open spec fn sequenced() -> bool {
        true
    }

    fn tls_serialized_len(&self) -> (n: usize) {
        4 + self.commit.tls_serialized_len()
    }

    fn tls_serialize_detached(&self) -> (r: Result<Vec<u8>, Error>) {
        let bytes = self.commit.tls_serialize_detached();
        prepend(&self.team, bytes)
    }

    fn tls_deserialize(bytes: &[u8]) -> (r: Result<(Self, usize), Error>) {
        match MlsCommitOutFields::tls_deserialize(bytes) {
            Ok(((team, commit), n)) => {
                let record = MlsCommitOut { team, commit };
                Ok((record, n))
            },
            Err(e) => Err(e),
        }
    }

    proof fn lemma_round_trip(v: MlsCommitOutModel, rest: Seq<u8>) {
        MlsCommitOutFields::lemma_round_trip(v.fields(), rest);
    }

    proof fn lemma_truncated(v: MlsCommitOutModel, k: nat) {
        MlsCommitOutFields::lemma_truncated(v.fields(), k);
    }
}

/// A ciphertext on a channel, as received.
#[derive(Debug, PartialEq, Eq)]
pub struct EncryptedAsciiMessageIn {
    pub team: u32,
    pub channel: u32,
    pub ciphertext: TlsSerialized<MlsMessageInBytes>,
}

/// What an `EncryptedAsciiMessageIn` stands for.
pub struct EncryptedAsciiMessageInModel {
    pub team: u32,
    pub channel: u32,
    pub ciphertext: Seq<u8>,
}

/// The fields of an `EncryptedAsciiMessageIn`, in the order in which they are written.
pub type EncryptedAsciiMessageInFields = (u32, (u32, TlsSerialized<MlsMessageInBytes>));

impl EncryptedAsciiMessageInModel {
    /// The fields in the order in which they are written.
    pub open spec fn fields(self) -> (u32, (u32, Seq<u8>)) {
        (self.team, (self.channel, self.ciphertext))
    }

    /// The record that has these fields.
    pub open spec fn of(f: (u32, (u32, Seq<u8>))) -> Self {
        EncryptedAsciiMessageInModel {
            team: f.0,
            channel: f.1.0,
            ciphertext: f.1.1,
        }
    }
}

impl Codec for EncryptedAsciiMessageIn {
    type Model = EncryptedAsciiMessageInModel;

    open spec fn model(&self) -> EncryptedAsciiMessageInModel {
        EncryptedAsciiMessageInModel {
            team: self.team,
            channel: self.channel,
            ciphertext: self.ciphertext.model(),
        }
    }

    open spec fn wire(v: EncryptedAsciiMessageInModel) -> Seq<u8> {
        EncryptedAsciiMessageInFields::wire(v.fields())
    }

    open spec fn valid(v: EncryptedAsciiMessageInModel) -> bool {
        EncryptedAsciiMessageInFields::valid(v.fields())
    }

    open spec fn parse(bytes: Seq<u8>) -> Result<(EncryptedAsciiMessageInModel, nat), Error> {
        match EncryptedAsciiMessageInFields::parse(bytes) {
            Ok((f, n)) => Ok((EncryptedAsciiMessageInModel::of(f), n)),
            Err(e) => Err(e),
        }
    }

    open spec fn framed() -> bool {
        true
    }

    open spec fn sequenced() -> bool {
        true
    }

    fn tls_serialized_len(&self) -> (n: usize) {
        8 + self.ciphertext.tls_serialized_len()
    }

    fn tls_serialize_detached(&self) -> (r: Result<Vec<u8>, Error>) {
        let bytes = self.ciphertext.tls_serialize_detached();
        let bytes = prepend(&self.channel, bytes);
        prepend(&self.team, bytes)
    }

    fn tls_deserialize(bytes: &[u8]) -> (r: Result<(Self, usize), Error>) {
        match EncryptedAsciiMessageInFields::tls_deserialize(bytes) {
            Ok(((team, (channel, ciphertext)), n)) => {
                let record = EncryptedAsciiMessageIn { team, channel, ciphertext };
                Ok((record, n))
            },
            Err(e) => Err(e),
        }
    }

    proof fn lemma_round_trip(v: EncryptedAsciiMessageInModel, rest: Seq<u8>) {
        EncryptedAsciiMessageInFields::lemma_round_trip(v.fields(), rest);
    }

    proof fn lemma_truncated(v: EncryptedAsciiMessageInModel, k: nat) {
        EncryptedAsciiMessageInFields::lemma_truncated(v.fields(), k);
    }
}

/// A ciphertext on a channel, to be sent.
#[derive(Debug, PartialEq, Eq)]
pub struct EncryptedAsciiMessageOut {
    pub team: u32,
    pub channel: u32,
    pub ciphertext: TlsSerialized<MlsMessageOutBytes>,
}

/// What an `EncryptedAsciiMessageOut` stands for.
pub struct EncryptedAsciiMessageOutModel {
    pub team: u32,
    pub channel: u32,
    pub ciphertext: Seq<u8>,
}

/// The fields of an `EncryptedAsciiMessageOut`, in the order in which they are written.
pub type EncryptedAsciiMessageOutFields = (u32, (u32, TlsSerialized<MlsMessageOutBytes>));

impl EncryptedAsciiMessageOutModel {
    /// The fields in the order in which they are written.
    pub open spec fn fields(self) -> (u32, (u32, Seq<u8>)) {
        (self.team, (self.channel, self.ciphertext))
    }

    /// The record that has these fields.
    pub open spec fn of(f: (u32, (u32, Seq<u8>))) -> Self {
        EncryptedAsciiMessageOutModel {
            team: f.0,
            channel: f.1.0,
            ciphertext: f.1.1,
        }
    }
}

impl Codec for EncryptedAsciiMessageOut {
    type Model = EncryptedAsciiMessageOutModel;

    open spec fn model(&self) -> EncryptedAsciiMessageOutModel {
        EncryptedAsciiMessageOutModel {
            team: self.team,
            channel: self.channel,
            ciphertext: self.ciphertext.model(),
        }
    }

    open spec fn wire(v: EncryptedAsciiMessageOutModel) -> Seq<u8> {
        EncryptedAsciiMessageOutFields::wire(v.fields())
    }

    open spec fn valid(v: EncryptedAsciiMessageOutModel) -> bool {
        EncryptedAsciiMessageOutFields::valid(v.fields())
    }

    open spec fn parse(bytes: Seq<u8>) -> Result<(EncryptedAsciiMessageOutModel, nat), Error> {
        match EncryptedAsciiMessageOutFields::parse(bytes) {
            Ok((f, n)) => Ok((EncryptedAsciiMessageOutModel::of(f), n)),
            Err(e) => Err(e),
        }
    }

    open spec fn framed() -> bool {
        true
    }

    open spec fn sequenced() -> bool {
        true
    }

    fn tls_serialized_len(&self) -> (n: usize) {
        8 + self.ciphertext.tls_serialized_len()
    }

    fn tls_serialize_detached(&self) -> (r: Result<Vec<u8>, Error>) {
        let bytes = self.ciphertext.tls_serialize_detached();
        let bytes = prepend(&self.channel, bytes);
        prepend(&self.team, bytes)
    }

    fn tls_deserialize(bytes: &[u8]) -> (r: Result<(Self, usize), Error>) {
        match EncryptedAsciiMessageOutFields::tls_deserialize(bytes) {
            Ok(((team, (channel, ciphertext)), n)) => {
                let record = EncryptedAsciiMessageOut { team, channel, ciphertext };
                Ok((record, n))
            },
            Err(e) => Err(e),
        }
    }

    proof fn lemma_round_trip(v: EncryptedAsciiMessageOutModel, rest: Seq<u8>) {
        EncryptedAsciiMessageOutFields::lemma_round_trip(v.fields(), rest);
    }

    proof fn lemma_truncated(v: EncryptedAsciiMessageOutModel, k: nat) {
        EncryptedAsciiMessageOutFields::lemma_truncated(v.fields(), k);
    }
}

/// A plain text that a device put on a channel.
#[derive(Debug, PartialEq, Eq)]
pub struct AsciiMessage {
    pub team: u32,
    pub channel: u32,
    pub device_id: u16,
    pub ascii: TlsByteVecU32,
}

/// What an `AsciiMessage` stands for.
pub struct AsciiMessageModel {
    pub team: u32,
    pub channel: u32,
    pub device_id: u16,
    pub ascii: Seq<u8>,
}

/// The fields of an `AsciiMessage`, in the order in which they are written.
pub type AsciiMessageFields = (u32, (u32, (u16, TlsByteVecU32)));

impl AsciiMessageModel {
    /// The fields in the order in which they are written.
    pub open spec fn fields(self) -> (u32, (u32, (u16, Seq<u8>))) {
        (self.team, (self.channel, (self.device_id, self.ascii)))
    }

    /// The record that has these fields.
    pub open spec fn of(f: (u32, (u32, (u16, Seq<u8>)))) -> Self {
        AsciiMessageModel {
            team: f.0,
            channel: f.1.0,
            device_id: f.1.1.0,
            ascii: f.1.1.1,
        }
    }
}

impl Codec for AsciiMessage {
    type Model = AsciiMessageModel;

    open spec fn model(&self) -> AsciiMessageModel {
        AsciiMessageModel {
            team: self.team,
            channel: self.channel,
            device_id: self.device_id,
            ascii: self.ascii.model(),
        }
    }

    open spec fn wire(v: AsciiMessageModel) -> Seq<u8> {
        AsciiMessageFields::wire(v.fields())
    }

    open spec fn valid(v: AsciiMessageModel) -> bool {
        AsciiMessageFields::valid(v.fields())
    }

    open spec fn parse(bytes: Seq<u8>) -> Result<(AsciiMessageModel, nat), Error> {
        match AsciiMessageFields::parse(bytes) {
            Ok((f, n)) => Ok((AsciiMessageModel::of(f), n)),
            Err(e) => Err(e),
        }
    }

    open spec fn framed() -> bool {
        true
    }

    open spec fn sequenced() -> bool {
        true
    }

    fn tls_serialized_len(&self) -> (n: usize) {
        10 + self.ascii.tls_serialized_len()
    }

    fn tls_serialize_detached(&self) -> (r: Result<Vec<u8>, Error>) {
        let bytes = self.ascii.tls_serialize_detached();
        let bytes = prepend(&self.device_id, bytes);
        let bytes = prepend(&self.channel, bytes);
        prepend(&self.team, bytes)
    }

    fn tls_deserialize(bytes: &[u8]) -> (r: Result<(Self, usize), Error>) {
        match AsciiMessageFields::tls_deserialize(bytes) {
            Ok(((team, (channel, (device_id, ascii))), n)) => {
                let record = AsciiMessage { team, channel, device_id, ascii };
                Ok((record, n))
            },
            Err(e) => Err(e),
        }
    }

    proof fn lemma_round_trip(v: AsciiMessageModel, rest: Seq<u8>) {
        AsciiMessageFields::lemma_round_trip(v.fields(), rest);
    }

    proof fn lemma_truncated(v: AsciiMessageModel, k: nat) {
        AsciiMessageFields::lemma_truncated(v.fields(), k);
    }
}

/// The devices to start watching on a channel.
#[derive(Debug, PartialEq, Eq)]
pub struct WatchDevices {
    pub team: u32,
    pub channel: u32,
    pub device_ids: TlsVecU16<u16>,
}

/// What a `WatchDevices` stands for.
pub struct WatchDevicesModel {
    pub team: u32,
    pub channel: u32,
    pub device_ids: Seq<u16>,
}

/// The fields of a `WatchDevices`, in the order in which they are written.
pub type WatchDevicesFields = (u32, (u32, TlsVecU16<u16>));

impl WatchDevicesModel {
    /// The fields in the order in which they are written.
    pub open spec fn fields(self) -> (u32, (u32, Seq<u16>)) {
        (self.team, (self.channel, self.device_ids))
    }

    /// The record that has these fields.
    pub open spec fn of(f: (u32, (u32, Seq<u16>))) -> Self {
        WatchDevicesModel {
            team: f.0,
            channel: f.1.0,
            device_ids: f.1.1,
        }
    }
}

impl Codec for WatchDevices {
    type Model = WatchDevicesModel;

    open spec fn model(&self) -> WatchDevicesModel {
        WatchDevicesModel {
            team: self.team,
            channel: self.channel,
            device_ids: self.device_ids.model(),
        }
    }

    open spec fn wire(v: WatchDevicesModel) -> Seq<u8> {
        WatchDevicesFields::wire(v.fields())
    }

    open spec fn valid(v: WatchDevicesModel) -> bool {
        WatchDevicesFields::valid(v.fields())
    }

    open spec fn parse(bytes: Seq<u8>) -> Result<(WatchDevicesModel, nat), Error> {
        match WatchDevicesFields::parse(bytes) {
            Ok((f, n)) => Ok((WatchDevicesModel::of(f), n)),
            Err(e) => Err(e),
        }
    }

    open spec fn framed() -> bool {
        true
    }

    open spec fn sequenced() -> bool {
        true
    }

    fn tls_serialized_len(&self) -> (n: usize) {
        8 + self.device_ids.tls_serialized_len()
    }

    fn tls_serialize_detached(&self) -> (r: Result<Vec<u8>, Error>) {
        let bytes = self.device_ids.tls_serialize_detached();
        let bytes = prepend(&self.channel, bytes);
        prepend(&self.team, bytes)
    }

    fn tls_deserialize(bytes: &[u8]) -> (r: Result<(Self, usize), Error>) {
        match WatchDevicesFields::tls_deserialize(bytes) {
            Ok(((team, (channel, device_ids)), n)) => {
                let record = WatchDevices { team, channel, device_ids };
                Ok((record, n))
            },
            Err(e) => Err(e),
        }
    }

    proof fn lemma_round_trip(v: WatchDevicesModel, rest: Seq<u8>) {
        WatchDevicesFields::lemma_round_trip(v.fields(), rest);
    }

    proof fn lemma_truncated(v: WatchDevicesModel, k: nat) {
        WatchDevicesFields::lemma_truncated(v.fields(), k);
    }
}

/// The devices to stop watching on a channel.
#[derive(Debug, PartialEq, Eq)]
pub struct UnwatchDevices {
    pub team: u32,
    pub channel: u32,
    pub device_ids: TlsVecU16<u16>,
}

/// What an `UnwatchDevices` stands for.
pub struct UnwatchDevicesModel {
    pub team: u32,
    pub channel: u32,
    pub device_ids: Seq<u16>,
}

/// The fields of an `UnwatchDevices`, in the order in which they are written.
pub type UnwatchDevicesFields = (u32, (u32, TlsVecU16<u16>));

impl UnwatchDevicesModel {
    /// The fields in the order in which they are written.
    pub open spec fn fields(self) -> (u32, (u32, Seq<u16>)) {
        (self.team, (self.channel, self.device_ids))
    }

    /// The record that has these fields.
    pub open spec fn of(f: (u32, (u32, Seq<u16>))) -> Self {
        UnwatchDevicesModel {
            team: f.0,
            channel: f.1.0,
            device_ids: f.1.1,
        }
    }
}

impl Codec for UnwatchDevices {
    type Model = UnwatchDevicesModel;

    open spec fn model(&self) -> UnwatchDevicesModel {
        UnwatchDevicesModel {
            team: self.team,
            channel: self.channel,
            device_ids: self.device_ids.model(),
        }
    }

    open spec fn wire(v: UnwatchDevicesModel) -> Seq<u8> {
        UnwatchDevicesFields::wire(v.fields())
    }

    open spec fn valid(v: UnwatchDevicesModel) -> bool {
        UnwatchDevicesFields::valid(v.fields())
    }

    open spec fn parse(bytes: Seq<u8>) -> Result<(UnwatchDevicesModel, nat), Error> {
        match UnwatchDevicesFields::parse(bytes) {
            Ok((f, n)) => Ok((UnwatchDevicesModel::of(f), n)),
            Err(e) => Err(e),
        }
    }

    open spec fn framed() -> bool {
        true
    }

    open spec fn sequenced() -> bool {
        true
    }

    fn tls_serialized_len(&self) -> (n: usize) {
        8 + self.device_ids.tls_serialized_len()
    }

    fn tls_serialize_detached(&self) -> (r: Result<Vec<u8>, Error>) {
        let bytes = self.device_ids.tls_serialize_detached();
        let bytes = prepend(&self.channel, bytes);
        prepend(&self.team, bytes)
    }

    fn tls_deserialize(bytes: &[u8]) -> (r: Result<(Self, usize), Error>) {
        match UnwatchDevicesFields::tls_deserialize(bytes) {
            Ok(((team, (channel, device_ids)), n)) => {
                let record = UnwatchDevices { team, channel, device_ids };
                Ok((record, n))
            },
            Err(e) => Err(e),
        }
    }

    proof fn lemma_round_trip(v: UnwatchDevicesModel, rest: Seq<u8>) {
        UnwatchDevicesFields::lemma_round_trip(v.fields(), rest);
    }

    proof fn lemma_truncated(v: UnwatchDevicesModel, k: nat) {
        UnwatchDevicesFields::lemma_truncated(v.fields(), k);
    }
}

/// A channel to start watching.
#[derive(Debug, PartialEq, Eq)]
pub struct WatchChannel {
    pub team: u32,
    pub channel: u32,
}

/// What a `WatchChannel` stands for.
pub struct WatchChannelModel {
    pub team: u32,
    pub channel: u32,
}

/// The fields of a `WatchChannel`, in the order in which they are written.
pub type WatchChannelFields = (u32, u32);

impl WatchChannelModel {
    /// The fields in the order in which they are written.
    pub open spec fn fields(self) -> (u32, u32) {
        (self.team, self.channel)
    }

    /// The record that has these fields.
    pub open spec fn of(f: (u32, u32)) -> Self {
        WatchChannelModel {
            team: f.0,
            channel: f.1,
        }
    }
}

impl Codec for WatchChannel {
    type Model = WatchChannelModel;

    open spec fn model(&self) -> WatchChannelModel {
        WatchChannelModel {
            team: self.team,
            channel: self.channel,
        }
    }

    open spec fn wire(v: WatchChannelModel) -> Seq<u8> {
        WatchChannelFields::wire(v.fields())
    }

    open spec fn valid(v: WatchChannelModel) -> bool {
        WatchChannelFields::valid(v.fields())
    }

    open spec fn parse(bytes: Seq<u8>) -> Result<(WatchChannelModel, nat), Error> {
        match WatchChannelFields::parse(bytes) {
            Ok((f, n)) => Ok((WatchChannelModel::of(f), n)),
            Err(e) => Err(e),
        }
    }

    open spec fn framed() -> bool {
        true
    }

    open spec fn sequenced() -> bool {
        true
    }

    fn tls_serialized_len(&self) -> (n: usize) {
        8
    }

    fn tls_serialize_detached(&self) -> (r: Result<Vec<u8>, Error>) {
        let bytes = self.channel.tls_serialize_detached();
        prepend(&self.team, bytes)
    }

    fn tls_deserialize(bytes: &[u8]) -> (r: Result<(Self, usize), Error>) {
        match WatchChannelFields::tls_deserialize(bytes) {
            Ok(((team, channel), n)) => {
                let record = WatchChannel { team, channel };
                Ok((record, n))
            },
            Err(e) => Err(e),
        }
    }

    proof fn lemma_round_trip(v: WatchChannelModel, rest: Seq<u8>) {
        WatchChannelFields::lemma_round_trip(v.fields(), rest);
    }

    proof fn lemma_truncated(v: WatchChannelModel, k: nat) {
        WatchChannelFields::lemma_truncated(v.fields(), k);
    }
}

/// A channel to stop watching.
#[derive(Debug, PartialEq, Eq)]
pub struct UnwatchChannel {
    pub team: u32,
    pub channel: u32,
}

/// What an `UnwatchChannel` stands for.
pub struct UnwatchChannelModel {
    pub team: u32,
    pub channel: u32,
}

/// The fields of an `UnwatchChannel`, in the order in which they are written.
pub type UnwatchChannelFields = (u32, u32);

impl UnwatchChannelModel {
    /// The fields in the order in which they are written.
    pub open spec fn fields(self) -> (u32, u32) {
        (self.team, self.channel)
    }

    /// The record that has these fields.
    pub open spec fn of(f: (u32, u32)) -> Self {
        UnwatchChannelModel {
            team: f.0,
            channel: f.1,
        }
    }
}

impl Codec for UnwatchChannel {
    type Model = UnwatchChannelModel;

    open spec fn model(&self) -> UnwatchChannelModel {
        UnwatchChannelModel {
            team: self.team,
            channel: self.channel,
        }
    }

    open spec fn wire(v: UnwatchChannelModel) -> Seq<u8> {
        UnwatchChannelFields::wire(v.fields())
    }

    open spec fn valid(v: UnwatchChannelModel) -> bool {
        UnwatchChannelFields::valid(v.fields())
    }

    open spec fn parse(bytes: Seq<u8>) -> Result<(UnwatchChannelModel, nat), Error> {
        match UnwatchChannelFields::parse(bytes) {
            Ok((f, n)) => Ok((UnwatchChannelModel::of(f), n)),
            Err(e) => Err(e),
        }
    }

    open spec fn framed() -> bool {
        true
    }

    open spec fn sequenced() -> bool {
        true
    }

    fn tls_serialized_len(&self) -> (n: usize) {
        8
    }

    fn tls_serialize_detached(&self) -> (r: Result<Vec<u8>, Error>) {
        let bytes = self.channel.tls_serialize_detached();
        prepend(&self.team, bytes)
    }

    fn tls_deserialize(bytes: &[u8]) -> (r: Result<(Self, usize), Error>) {
        match UnwatchChannelFields::tls_deserialize(bytes) {
            Ok(((team, channel), n)) => {
                let record = UnwatchChannel { team, channel };
                Ok((record, n))
            },
            Err(e) => Err(e),
        }
    }

    proof fn lemma_round_trip(v: UnwatchChannelModel, rest: Seq<u8>) {
        UnwatchChannelFields::lemma_round_trip(v.fields(), rest);
    }

    proof fn lemma_truncated(v: UnwatchChannelModel, k: nat) {
        UnwatchChannelFields::lemma_truncated(v.fields(), k);
    }
}

/// The device that an endpoint is, within a team.
#[derive(Debug, PartialEq, Eq)]
pub struct DeviceInfo {
    pub team: u32,
    pub device_id: u16,
}

/// What a `DeviceInfo` stands for.
pub struct DeviceInfoModel {
    pub team: u32,
    pub device_id: u16,
}

/// The fields of a `DeviceInfo`, in the order in which they are written.
pub type DeviceInfoFields = (u32, u16);

impl DeviceInfoModel {
    /// The fields in the order in which they are written.
    pub open spec fn fields(self) -> (u32, u16) {
        (self.team, self.device_id)
    }

    /// The record that has these fields.
    pub open spec fn of(f: (u32, u16)) -> Self {
        DeviceInfoModel {
            team: f.0,
            device_id: f.1,
        }
    }
}

impl Codec for DeviceInfo {
    type Model = DeviceInfoModel;

    open spec fn model(&self) -> DeviceInfoModel {
        DeviceInfoModel {
            team: self.team,
            device_id: self.device_id,
        }
    }

    open spec fn wire(v: DeviceInfoModel) -> Seq<u8> {
        DeviceInfoFields::wire(v.fields())
    }

    open spec fn valid(v: DeviceInfoModel) -> bool {
        DeviceInfoFields::valid(v.fields())
    }

    open spec fn parse(bytes: Seq<u8>) -> Result<(DeviceInfoModel, nat), Error> {
        match DeviceInfoFields::parse(bytes) {
            Ok((f, n)) => Ok((DeviceInfoModel::of(f), n)),
            Err(e) => Err(e),
        }
    }

    open spec fn framed() -> bool {
        true
    }

    open spec fn sequenced() -> bool {
        true
    }

    fn tls_serialized_len(&self) -> (n: usize) {
        6
    }

    fn tls_serialize_detached(&self) -> (r: Result<Vec<u8>, Error>) {
        let bytes = self.device_id.tls_serialize_detached();
        prepend(&self.team, bytes)
    }

    fn tls_deserialize(bytes: &[u8]) -> (r: Result<(Self, usize), Error>) {
        match DeviceInfoFields::tls_deserialize(bytes) {
            Ok(((team, device_id), n)) => {
                let record = DeviceInfo { team, device_id };
                Ok((record, n))
            },
            Err(e) => Err(e),
        }
    }

    proof fn lemma_round_trip(v: DeviceInfoModel, rest: Seq<u8>) {
        DeviceInfoFields::lemma_round_trip(v.fields(), rest);
    }

    proof fn lemma_truncated(v: DeviceInfoModel, k: nat) {
        DeviceInfoFields::lemma_truncated(v.fields(), k);
    }
}

} // verus!
