//! The four unions of events, one for each direction between the planes.
//!
//! An event is written as its tag, in four bytes, followed by its record. The
//! tags of a union are its own: a number may stand for different records in
//! two unions, and the gaps between the numbers are kept.

use vstd::prelude::*;
use crate::codec::{be32, from_be32, prepend, read_after, Codec};
use crate::error::{Error, FormatError};
use crate::records::{
    AsciiMessage, AsciiMessageModel, DeviceInfo, DeviceInfoModel, EncryptedAsciiMessageIn,
    EncryptedAsciiMessageInModel, EncryptedAsciiMessageOut, EncryptedAsciiMessageOutModel,
    JoinRequest, JoinRequestModel, MlsCommitIn, MlsCommitInModel, MlsCommitOut,
    MlsCommitOutModel, MlsWelcome, MlsWelcomeModel, UnwatchChannel, UnwatchChannelModel,
    UnwatchDevices, UnwatchDevicesModel, WatchChannel, WatchChannelModel, WatchDevices,
    WatchDevicesModel,
};

verus! {

/// A tagged record that was cut short: either the tag itself is incomplete, or
/// it reads as written and the record behind it fails for want of input.
pub proof fn lemma_tagged_truncated<R: Codec>(tag: u32, r: R::Model, k: nat)
    requires
        R::valid(r),
        R::sequenced(),
        R::framed(),
        k < <(u32, R)>::wire((tag, r)).len(),
    ensures
        ({
            let cut = <(u32, R)>::wire((tag, r)).take(k as int);
            match u32::parse(cut) {
                Ok((t, _)) => t == tag && R::parse(cut.skip(4)) == Err::<(R::Model, nat), Error>(
                    Error::Io,
                ),
                Err(e) => e == Error::Io,
            }
        }),
{
    <(u32, R)>::lemma_truncated((tag, r), k);
}

/// What the network plane hands to the security plane.
#[derive(Debug, PartialEq, Eq)]
pub enum NetworkToSecurityEvent {
    JoinRequest(JoinRequest),
    MlsWelcome(MlsWelcome),
    MlsCommit(MlsCommitIn),
    EncryptedAsciiMessage(EncryptedAsciiMessageIn),
}

/// What a `NetworkToSecurityEvent` stands for.
pub enum NetworkToSecurityModel {
    JoinRequest(JoinRequestModel),
    MlsWelcome(MlsWelcomeModel),
    MlsCommit(MlsCommitInModel),
    EncryptedAsciiMessage(EncryptedAsciiMessageInModel),
}

impl NetworkToSecurityEvent {
    /// The tag that each variant is written under.
    pub open spec fn tag_of(v: NetworkToSecurityModel) -> u32 {
        match v {
            NetworkToSecurityModel::JoinRequest(_) => 1,
            NetworkToSecurityModel::MlsWelcome(_) => 2,
            NetworkToSecurityModel::MlsCommit(_) => 3,
            NetworkToSecurityModel::EncryptedAsciiMessage(_) => 4,
        }
    }

    /// Whether `tag` is a tag of this union.
    pub open spec fn known_tag(tag: u32) -> bool {
        tag == 1 || tag == 2 || tag == 3 || tag == 4
    }

    /// The bytes of the record that each variant carries.
    pub open spec fn body(v: NetworkToSecurityModel) -> Seq<u8> {
        match v {
            NetworkToSecurityModel::JoinRequest(r) => JoinRequest::wire(r),
            NetworkToSecurityModel::MlsWelcome(r) => MlsWelcome::wire(r),
            NetworkToSecurityModel::MlsCommit(r) => MlsCommitIn::wire(r),
            NetworkToSecurityModel::EncryptedAsciiMessage(r) => EncryptedAsciiMessageIn::wire(r),
        }
    }

    /// The tag that `self` is written under.
    pub fn discriminant(&self) -> (tag: u32)
        ensures
            tag == Self::tag_of(self.model()),
            Self::known_tag(tag),
    {
        match self {
            Self::JoinRequest(_) => 1,
            Self::MlsWelcome(_) => 2,
            Self::MlsCommit(_) => 3,
            Self::EncryptedAsciiMessage(_) => 4,
        }
    }

    /// Every variant has a tag of the union, and no two share one.
    pub proof fn lemma_tags_distinct(a: NetworkToSecurityModel, b: NetworkToSecurityModel)
        ensures
            Self::known_tag(Self::tag_of(a)),
            Self::tag_of(a) == Self::tag_of(b) ==> ((a is JoinRequest && b is JoinRequest)
                || (a is MlsWelcome && b is MlsWelcome)
                || (a is MlsCommit && b is MlsCommit)
                || (a is EncryptedAsciiMessage && b is EncryptedAsciiMessage)),
    {
    }

    /// A written event leads with the four bytes of its tag, and its record
    /// follows them.
    pub proof fn lemma_leads_with_tag(v: NetworkToSecurityModel)
        ensures
            Self::wire(v).len() >= 4,
            Self::wire(v).subrange(0, 4) == be32(Self::tag_of(v)),
            Self::wire(v).skip(4) == Self::body(v),
    {
        let w = Self::wire(v);
        assert(w =~= be32(Self::tag_of(v)) + Self::body(v));
        assert(w.subrange(0, 4) =~= be32(Self::tag_of(v)));
        assert(w.skip(4) =~= Self::body(v));
    }

    /// A buffer that leads with a number that is no tag of this union is
    /// rejected, whatever follows the number.
    pub proof fn lemma_unknown_tag_rejected(bytes: Seq<u8>)
        requires
            bytes.len() >= 4,
            !Self::known_tag(from_be32(bytes[0], bytes[1], bytes[2], bytes[3])),
        ensures
            Self::parse(bytes) == Err::<(NetworkToSecurityModel, nat), Error>(
                Error::Format(FormatError::UnknownDiscriminant),
            ),
    {
    }
}

impl Codec for NetworkToSecurityEvent {
    type Model = NetworkToSecurityModel;

    open spec fn model(&self) -> NetworkToSecurityModel {
        match self {
            Self::JoinRequest(r) => {
                NetworkToSecurityModel::JoinRequest(r.model())
            },
            Self::MlsWelcome(r) => {
                NetworkToSecurityModel::MlsWelcome(r.model())
            },
            Self::MlsCommit(r) => {
                NetworkToSecurityModel::MlsCommit(r.model())
            },
            Self::EncryptedAsciiMessage(r) => {
                NetworkToSecurityModel::EncryptedAsciiMessage(r.model())
            },
        }
    }

    open spec fn wire(v: NetworkToSecurityModel) -> Seq<u8> {
        match v {
            NetworkToSecurityModel::JoinRequest(r) => {
                <(u32, JoinRequest)>::wire((1u32, r))
            },
            NetworkToSecurityModel::MlsWelcome(r) => {
                <(u32, MlsWelcome)>::wire((2u32, r))
            },
            NetworkToSecurityModel::MlsCommit(r) => {
                <(u32, MlsCommitIn)>::wire((3u32, r))
            },
            NetworkToSecurityModel::EncryptedAsciiMessage(r) => {
                <(u32, EncryptedAsciiMessageIn)>::wire((4u32, r))
            },
        }
    }

    open spec fn valid(v: NetworkToSecurityModel) -> bool {
        match v {
            NetworkToSecurityModel::JoinRequest(r) => JoinRequest::valid(r),
            NetworkToSecurityModel::MlsWelcome(r) => MlsWelcome::valid(r),
            NetworkToSecurityModel::MlsCommit(r) => MlsCommitIn::valid(r),
            NetworkToSecurityModel::EncryptedAsciiMessage(r) => EncryptedAsciiMessageIn::valid(r),
        }
    }

    open spec fn parse(bytes: Seq<u8>) -> Result<(NetworkToSecurityModel, nat), Error> {
        match u32::parse(bytes) {
            Err(e) => Err(e),
            Ok((tag, _)) => {
                let body = bytes.skip(4);
                if tag == 1 {
                    match JoinRequest::parse(body) {
                        Ok((r, n)) => Ok((NetworkToSecurityModel::JoinRequest(r), 4 + n)),
                        Err(e) => Err(e),
                    }
                } else if tag == 2 {
                    match MlsWelcome::parse(body) {
                        Ok((r, n)) => Ok((NetworkToSecurityModel::MlsWelcome(r), 4 + n)),
                        Err(e) => Err(e),
                    }
                } else if tag == 3 {
                    match MlsCommitIn::parse(body) {
                        Ok((r, n)) => Ok((NetworkToSecurityModel::MlsCommit(r), 4 + n)),
                        Err(e) => Err(e),
                    }
                } else if tag == 4 {
                    match EncryptedAsciiMessageIn::parse(body) {
                        Ok((r, n)) => Ok((NetworkToSecurityModel::EncryptedAsciiMessage(r), 4 + n)),
                        Err(e) => Err(e),
                    }
                } else {
                    Err(Error::Format(FormatError::UnknownDiscriminant))
                }
            },
        }
    }

    open spec fn framed() -> bool {
        true
    }

    open spec fn sequenced() -> bool {
        true
    }

    fn tls_serialized_len(&self) -> (n: usize) {
        match self {
            Self::JoinRequest(r) => 4 + r.tls_serialized_len(),
            Self::MlsWelcome(r) => 4 + r.tls_serialized_len(),
            Self::MlsCommit(r) => 4 + r.tls_serialized_len(),
            Self::EncryptedAsciiMessage(r) => 4 + r.tls_serialized_len(),
        }
    }

    fn tls_serialize_detached(&self) -> (r: Result<Vec<u8>, Error>) {
        let tag: u32 = self.discriminant();
        match self {
            Self::JoinRequest(r) => prepend(&tag, r.tls_serialize_detached()),
            Self::MlsWelcome(r) => prepend(&tag, r.tls_serialize_detached()),
            Self::MlsCommit(r) => prepend(&tag, r.tls_serialize_detached()),
            Self::EncryptedAsciiMessage(r) => prepend(&tag, r.tls_serialize_detached()),
        }
    }

    fn tls_deserialize(bytes: &[u8]) -> (r: Result<(Self, usize), Error>) {
        match u32::tls_deserialize(bytes) {
            Err(e) => Err(e),
            Ok((tag, _)) => {
                if tag == 1 {
                    match read_after::<JoinRequest>(bytes, 4) {
                        Ok((r, n)) => Ok((Self::JoinRequest(r), n)),
                        Err(e) => Err(e),
                    }
                } else if tag == 2 {
                    match read_after::<MlsWelcome>(bytes, 4) {
                        Ok((r, n)) => Ok((Self::MlsWelcome(r), n)),
                        Err(e) => Err(e),
                    }
                } else if tag == 3 {
                    match read_after::<MlsCommitIn>(bytes, 4) {
                        Ok((r, n)) => Ok((Self::MlsCommit(r), n)),
                        Err(e) => Err(e),
                    }
                } else if tag == 4 {
                    match read_after::<EncryptedAsciiMessageIn>(bytes, 4) {
                        Ok((r, n)) => Ok((Self::EncryptedAsciiMessage(r), n)),
                        Err(e) => Err(e),
                    }
                } else {
                    Err(Error::Format(FormatError::UnknownDiscriminant))
                }
            },
        }
    }

    proof fn lemma_round_trip(v: NetworkToSecurityModel, rest: Seq<u8>) {
        match v {
            NetworkToSecurityModel::JoinRequest(r) => {
                <(u32, JoinRequest)>::lemma_round_trip((1u32, r), rest);
            },
            NetworkToSecurityModel::MlsWelcome(r) => {
                <(u32, MlsWelcome)>::lemma_round_trip((2u32, r), rest);
            },
            NetworkToSecurityModel::MlsCommit(r) => {
                <(u32, MlsCommitIn)>::lemma_round_trip((3u32, r), rest);
            },
            NetworkToSecurityModel::EncryptedAsciiMessage(r) => {
                <(u32, EncryptedAsciiMessageIn)>::lemma_round_trip((4u32, r), rest);
            },
        }
    }

    proof fn lemma_truncated(v: NetworkToSecurityModel, k: nat) {
        match v {
            NetworkToSecurityModel::JoinRequest(r) => {
                lemma_tagged_truncated::<JoinRequest>(1u32, r, k);
            },
            NetworkToSecurityModel::MlsWelcome(r) => {
                lemma_tagged_truncated::<MlsWelcome>(2u32, r, k);
            },
            NetworkToSecurityModel::MlsCommit(r) => {
                lemma_tagged_truncated::<MlsCommitIn>(3u32, r, k);
            },
            NetworkToSecurityModel::EncryptedAsciiMessage(r) => {
                lemma_tagged_truncated::<EncryptedAsciiMessageIn>(4u32, r, k);
            },
        }
    }
}

/// What the security plane hands to the network plane.
#[derive(Debug, PartialEq, Eq)]
pub enum SecurityToNetworkEvent {
    JoinRequest(JoinRequest),
    MlsWelcome(MlsWelcome),
    MlsCommitOut(MlsCommitOut),
    EncryptedAsciiMessage(EncryptedAsciiMessageOut),
    WatchDevices(WatchDevices),
    UnwatchDevices(UnwatchDevices),
    DeviceInfo(DeviceInfo),
}

/// What a `SecurityToNetworkEvent` stands for.
pub enum SecurityToNetworkModel {
    JoinRequest(JoinRequestModel),
    MlsWelcome(MlsWelcomeModel),
    MlsCommitOut(MlsCommitOutModel),
    EncryptedAsciiMessage(EncryptedAsciiMessageOutModel),
    WatchDevices(WatchDevicesModel),
    UnwatchDevices(UnwatchDevicesModel),
    DeviceInfo(DeviceInfoModel),
}

impl SecurityToNetworkEvent {
    /// The tag that each variant is written under.
    pub open spec fn tag_of(v: SecurityToNetworkModel) -> u32 {
        match v {
            SecurityToNetworkModel::JoinRequest(_) => 1,
            SecurityToNetworkModel::MlsWelcome(_) => 2,
            SecurityToNetworkModel::MlsCommitOut(_) => 3,
            SecurityToNetworkModel::EncryptedAsciiMessage(_) => 4,
            SecurityToNetworkModel::WatchDevices(_) => 5,
            SecurityToNetworkModel::UnwatchDevices(_) => 6,
            SecurityToNetworkModel::DeviceInfo(_) => 9,
        }
    }

    /// Whether `tag` is a tag of this union.
    pub open spec fn known_tag(tag: u32) -> bool {
        tag == 1 || tag == 2 || tag == 3 || tag == 4 || tag == 5 || tag == 6 || tag == 9
    }

    /// The bytes of the record that each variant carries.
    pub open spec fn body(v: SecurityToNetworkModel) -> Seq<u8> {
        match v {
            SecurityToNetworkModel::JoinRequest(r) => JoinRequest::wire(r),
            SecurityToNetworkModel::MlsWelcome(r) => MlsWelcome::wire(r),
            SecurityToNetworkModel::MlsCommitOut(r) => MlsCommitOut::wire(r),
            SecurityToNetworkModel::EncryptedAsciiMessage(r) => EncryptedAsciiMessageOut::wire(r),
            SecurityToNetworkModel::WatchDevices(r) => WatchDevices::wire(r),
            SecurityToNetworkModel::UnwatchDevices(r) => UnwatchDevices::wire(r),
            SecurityToNetworkModel::DeviceInfo(r) => DeviceInfo::wire(r),
        }
    }

    /// The tag that `self` is written under.
    pub fn discriminant(&self) -> (tag: u32)
        ensures
            tag == Self::tag_of(self.model()),
            Self::known_tag(tag),
    {
        match self {
            Self::JoinRequest(_) => 1,
            Self::MlsWelcome(_) => 2,
            Self::MlsCommitOut(_) => 3,
            Self::EncryptedAsciiMessage(_) => 4,
            Self::WatchDevices(_) => 5,
            Self::UnwatchDevices(_) => 6,
            Self::DeviceInfo(_) => 9,
        }
    }

    /// Every variant has a tag of the union, and no two share one.
    pub proof fn lemma_tags_distinct(a: SecurityToNetworkModel, b: SecurityToNetworkModel)
        ensures
            Self::known_tag(Self::tag_of(a)),
            Self::tag_of(a) == Self::tag_of(b) ==> ((a is JoinRequest && b is JoinRequest)
                || (a is MlsWelcome && b is MlsWelcome)
                || (a is MlsCommitOut && b is MlsCommitOut)
                || (a is EncryptedAsciiMessage && b is EncryptedAsciiMessage)
                || (a is WatchDevices && b is WatchDevices)
                || (a is UnwatchDevices && b is UnwatchDevices)
                || (a is DeviceInfo && b is DeviceInfo)),
    {
    }

    /// A written event leads with the four bytes of its tag, and its record
    /// follows them.
    pub proof fn lemma_leads_with_tag(v: SecurityToNetworkModel)
        ensures
            Self::wire(v).len() >= 4,
            Self::wire(v).subrange(0, 4) == be32(Self::tag_of(v)),
            Self::wire(v).skip(4) == Self::body(v),
    {
        let w = Self::wire(v);
        assert(w =~= be32(Self::tag_of(v)) + Self::body(v));
        assert(w.subrange(0, 4) =~= be32(Self::tag_of(v)));
        assert(w.skip(4) =~= Self::body(v));
    }

    /// A buffer that leads with a number that is no tag of this union is
    /// rejected, whatever follows the number.
    pub proof fn lemma_unknown_tag_rejected(bytes: Seq<u8>)
        requires
            bytes.len() >= 4,
            !Self::known_tag(from_be32(bytes[0], bytes[1], bytes[2], bytes[3])),
        ensures
            Self::parse(bytes) == Err::<(SecurityToNetworkModel, nat), Error>(
                Error::Format(FormatError::UnknownDiscriminant),
            ),
    {
    }
}

impl Codec for SecurityToNetworkEvent {
    type Model = SecurityToNetworkModel;

    open spec fn model(&self) -> SecurityToNetworkModel {
        match self {
            Self::JoinRequest(r) => {
                SecurityToNetworkModel::JoinRequest(r.model())
            },
            Self::MlsWelcome(r) => {
                SecurityToNetworkModel::MlsWelcome(r.model())
            },
            Self::MlsCommitOut(r) => {
                SecurityToNetworkModel::MlsCommitOut(r.model())
            },
            Self::EncryptedAsciiMessage(r) => {
                SecurityToNetworkModel::EncryptedAsciiMessage(r.model())
            },
            Self::WatchDevices(r) => {
                SecurityToNetworkModel::WatchDevices(r.model())
            },
            Self::UnwatchDevices(r) => {
                SecurityToNetworkModel::UnwatchDevices(r.model())
            },
            Self::DeviceInfo(r) => {
                SecurityToNetworkModel::DeviceInfo(r.model())
            },
        }
    }

    open spec fn wire(v: SecurityToNetworkModel) -> Seq<u8> {
        match v {
            SecurityToNetworkModel::JoinRequest(r) => {
                <(u32, JoinRequest)>::wire((1u32, r))
            },
            SecurityToNetworkModel::MlsWelcome(r) => {
                <(u32, MlsWelcome)>::wire((2u32, r))
            },
            SecurityToNetworkModel::MlsCommitOut(r) => {
                <(u32, MlsCommitOut)>::wire((3u32, r))
            },
            SecurityToNetworkModel::EncryptedAsciiMessage(r) => {
                <(u32, EncryptedAsciiMessageOut)>::wire((4u32, r))
            },
            SecurityToNetworkModel::WatchDevices(r) => {
                <(u32, WatchDevices)>::wire((5u32, r))
            },
            SecurityToNetworkModel::UnwatchDevices(r) => {
                <(u32, UnwatchDevices)>::wire((6u32, r))
            },
            SecurityToNetworkModel::DeviceInfo(r) => {
                <(u32, DeviceInfo)>::wire((9u32, r))
            },
        }
    }

    open spec fn valid(v: SecurityToNetworkModel) -> bool {
        match v {
            SecurityToNetworkModel::JoinRequest(r) => JoinRequest::valid(r),
            SecurityToNetworkModel::MlsWelcome(r) => MlsWelcome::valid(r),
            SecurityToNetworkModel::MlsCommitOut(r) => MlsCommitOut::valid(r),
            SecurityToNetworkModel::EncryptedAsciiMessage(r) => EncryptedAsciiMessageOut::valid(r),
            SecurityToNetworkModel::WatchDevices(r) => WatchDevices::valid(r),
            SecurityToNetworkModel::UnwatchDevices(r) => UnwatchDevices::valid(r),
            SecurityToNetworkModel::DeviceInfo(r) => DeviceInfo::valid(r),
        }
    }

    open spec fn parse(bytes: Seq<u8>) -> Result<(SecurityToNetworkModel, nat), Error> {
        match u32::parse(bytes) {
            Err(e) => Err(e),
            Ok((tag, _)) => {
                let body = bytes.skip(4);
                if tag == 1 {
                    match JoinRequest::parse(body) {
                        Ok((r, n)) => Ok((SecurityToNetworkModel::JoinRequest(r), 4 + n)),
                        Err(e) => Err(e),
                    }
                } else if tag == 2 {
                    match MlsWelcome::parse(body) {
                        Ok((r, n)) => Ok((SecurityToNetworkModel::MlsWelcome(r), 4 + n)),
                        Err(e) => Err(e),
                    }
                } else if tag == 3 {
                    match MlsCommitOut::parse(body) {
                        Ok((r, n)) => Ok((SecurityToNetworkModel::MlsCommitOut(r), 4 + n)),
                        Err(e) => Err(e),
                    }
                } else if tag == 4 {
                    match EncryptedAsciiMessageOut::parse(body) {
                        Ok((r, n)) => Ok((SecurityToNetworkModel::EncryptedAsciiMessage(r), 4 + n)),
                        Err(e) => Err(e),
                    }
                } else if tag == 5 {
                    match WatchDevices::parse(body) {
                        Ok((r, n)) => Ok((SecurityToNetworkModel::WatchDevices(r), 4 + n)),
                        Err(e) => Err(e),
                    }
                } else if tag == 6 {
                    match UnwatchDevices::parse(body) {
                        Ok((r, n)) => Ok((SecurityToNetworkModel::UnwatchDevices(r), 4 + n)),
                        Err(e) => Err(e),
                    }
                } else if tag == 9 {
                    match DeviceInfo::parse(body) {
                        Ok((r, n)) => Ok((SecurityToNetworkModel::DeviceInfo(r), 4 + n)),
                        Err(e) => Err(e),
                    }
                } else {
                    Err(Error::Format(FormatError::UnknownDiscriminant))
                }
            },
        }
    }

    open spec fn framed() -> bool {
        true
    }

    open spec fn sequenced() -> bool {
        true
    }

    fn tls_serialized_len(&self) -> (n: usize) {
        match self {
            Self::JoinRequest(r) => 4 + r.tls_serialized_len(),
            Self::MlsWelcome(r) => 4 + r.tls_serialized_len(),
            Self::MlsCommitOut(r) => 4 + r.tls_serialized_len(),
            Self::EncryptedAsciiMessage(r) => 4 + r.tls_serialized_len(),
            Self::WatchDevices(r) => 4 + r.tls_serialized_len(),
            Self::UnwatchDevices(r) => 4 + r.tls_serialized_len(),
            Self::DeviceInfo(r) => 4 + r.tls_serialized_len(),
        }
    }

    fn tls_serialize_detached(&self) -> (r: Result<Vec<u8>, Error>) {
        let tag: u32 = self.discriminant();
        match self {
            Self::JoinRequest(r) => prepend(&tag, r.tls_serialize_detached()),
            Self::MlsWelcome(r) => prepend(&tag, r.tls_serialize_detached()),
            Self::MlsCommitOut(r) => prepend(&tag, r.tls_serialize_detached()),
            Self::EncryptedAsciiMessage(r) => prepend(&tag, r.tls_serialize_detached()),
            Self::WatchDevices(r) => prepend(&tag, r.tls_serialize_detached()),
            Self::UnwatchDevices(r) => prepend(&tag, r.tls_serialize_detached()),
            Self::DeviceInfo(r) => prepend(&tag, r.tls_serialize_detached()),
        }
    }

    fn tls_deserialize(bytes: &[u8]) -> (r: Result<(Self, usize), Error>) {
        match u32::tls_deserialize(bytes) {
            Err(e) => Err(e),
            Ok((tag, _)) => {
                if tag == 1 {
                    match read_after::<JoinRequest>(bytes, 4) {
                        Ok((r, n)) => Ok((Self::JoinRequest(r), n)),
                        Err(e) => Err(e),
                    }
                } else if tag == 2 {
                    match read_after::<MlsWelcome>(bytes, 4) {
                        Ok((r, n)) => Ok((Self::MlsWelcome(r), n)),
                        Err(e) => Err(e),
                    }
                } else if tag == 3 {
                    match read_after::<MlsCommitOut>(bytes, 4) {
                        Ok((r, n)) => Ok((Self::MlsCommitOut(r), n)),
                        Err(e) => Err(e),
                    }
                } else if tag == 4 {
                    match read_after::<EncryptedAsciiMessageOut>(bytes, 4) {
                        Ok((r, n)) => Ok((Self::EncryptedAsciiMessage(r), n)),
                        Err(e) => Err(e),
                    }
                } else if tag == 5 {
                    match read_after::<WatchDevices>(bytes, 4) {
                        Ok((r, n)) => Ok((Self::WatchDevices(r), n)),
                        Err(e) => Err(e),
                    }
                } else if tag == 6 {
                    match read_after::<UnwatchDevices>(bytes, 4) {
                        Ok((r, n)) => Ok((Self::UnwatchDevices(r), n)),
                        Err(e) => Err(e),
                    }
                } else if tag == 9 {
                    match read_after::<DeviceInfo>(bytes, 4) {
                        Ok((r, n)) => Ok((Self::DeviceInfo(r), n)),
                        Err(e) => Err(e),
                    }
                } else {
                    Err(Error::Format(FormatError::UnknownDiscriminant))
                }
            },
        }
    }

    proof fn lemma_round_trip(v: SecurityToNetworkModel, rest: Seq<u8>) {
        match v {
            SecurityToNetworkModel::JoinRequest(r) => {
                <(u32, JoinRequest)>::lemma_round_trip((1u32, r), rest);
            },
            SecurityToNetworkModel::MlsWelcome(r) => {
                <(u32, MlsWelcome)>::lemma_round_trip((2u32, r), rest);
            },
            SecurityToNetworkModel::MlsCommitOut(r) => {
                <(u32, MlsCommitOut)>::lemma_round_trip((3u32, r), rest);
            },
            SecurityToNetworkModel::EncryptedAsciiMessage(r) => {
                <(u32, EncryptedAsciiMessageOut)>::lemma_round_trip((4u32, r), rest);
            },
            SecurityToNetworkModel::WatchDevices(r) => {
                <(u32, WatchDevices)>::lemma_round_trip((5u32, r), rest);
            },
            SecurityToNetworkModel::UnwatchDevices(r) => {
                <(u32, UnwatchDevices)>::lemma_round_trip((6u32, r), rest);
            },
            SecurityToNetworkModel::DeviceInfo(r) => {
                <(u32, DeviceInfo)>::lemma_round_trip((9u32, r), rest);
            },
        }
    }

    proof fn lemma_truncated(v: SecurityToNetworkModel, k: nat) {
        match v {
            SecurityToNetworkModel::JoinRequest(r) => {
                lemma_tagged_truncated::<JoinRequest>(1u32, r, k);
            },
            SecurityToNetworkModel::MlsWelcome(r) => {
                lemma_tagged_truncated::<MlsWelcome>(2u32, r, k);
            },
            SecurityToNetworkModel::MlsCommitOut(r) => {
                lemma_tagged_truncated::<MlsCommitOut>(3u32, r, k);
            },
            SecurityToNetworkModel::EncryptedAsciiMessage(r) => {
                lemma_tagged_truncated::<EncryptedAsciiMessageOut>(4u32, r, k);
            },
            SecurityToNetworkModel::WatchDevices(r) => {
                lemma_tagged_truncated::<WatchDevices>(5u32, r, k);
            },
            SecurityToNetworkModel::UnwatchDevices(r) => {
                lemma_tagged_truncated::<UnwatchDevices>(6u32, r, k);
            },
            SecurityToNetworkModel::DeviceInfo(r) => {
                lemma_tagged_truncated::<DeviceInfo>(9u32, r, k);
            },
        }
    }
}

/// What the user interface hands to the security plane.
#[derive(Debug, PartialEq, Eq)]
pub enum UiToSecurityEvent {
    AsciiMessage(AsciiMessage),
    WatchChannel(WatchChannel),
    UnwatchChannel(UnwatchChannel),
}

/// What an `UiToSecurityEvent` stands for.
pub enum UiToSecurityModel {
    AsciiMessage(AsciiMessageModel),
    WatchChannel(WatchChannelModel),
    UnwatchChannel(UnwatchChannelModel),
}

impl UiToSecurityEvent {
    /// The tag that each variant is written under.
    pub open spec fn tag_of(v: UiToSecurityModel) -> u32 {
        match v {
            UiToSecurityModel::AsciiMessage(_) => 4,
            UiToSecurityModel::WatchChannel(_) => 7,
            UiToSecurityModel::UnwatchChannel(_) => 8,
        }
    }

    /// Whether `tag` is a tag of this union.
    pub open spec fn known_tag(tag: u32) -> bool {
        tag == 4 || tag == 7 || tag == 8
    }

    /// The bytes of the record that each variant carries.
    pub open spec fn body(v: UiToSecurityModel) -> Seq<u8> {
        match v {
            UiToSecurityModel::AsciiMessage(r) => AsciiMessage::wire(r),
            UiToSecurityModel::WatchChannel(r) => WatchChannel::wire(r),
            UiToSecurityModel::UnwatchChannel(r) => UnwatchChannel::wire(r),
        }
    }

    /// The tag that `self` is written under.
    pub fn discriminant(&self) -> (tag: u32)
        ensures
            tag == Self::tag_of(self.model()),
            Self::known_tag(tag),
    {
        match self {
            Self::AsciiMessage(_) => 4,
            Self::WatchChannel(_) => 7,
            Self::UnwatchChannel(_) => 8,
        }
    }

    /// Every variant has a tag of the union, and no two share one.
    pub proof fn lemma_tags_distinct(a: UiToSecurityModel, b: UiToSecurityModel)
        ensures
            Self::known_tag(Self::tag_of(a)),
            Self::tag_of(a) == Self::tag_of(b) ==> ((a is AsciiMessage && b is AsciiMessage)
                || (a is WatchChannel && b is WatchChannel)
                || (a is UnwatchChannel && b is UnwatchChannel)),
    {
    }

    /// A written event leads with the four bytes of its tag, and its record
    /// follows them.
    pub proof fn lemma_leads_with_tag(v: UiToSecurityModel)
        ensures
            Self::wire(v).len() >= 4,
            Self::wire(v).subrange(0, 4) == be32(Self::tag_of(v)),
            Self::wire(v).skip(4) == Self::body(v),
    {
        let w = Self::wire(v);
        assert(w =~= be32(Self::tag_of(v)) + Self::body(v));
        assert(w.subrange(0, 4) =~= be32(Self::tag_of(v)));
        assert(w.skip(4) =~= Self::body(v));
    }

    /// A buffer that leads with a number that is no tag of this union is
    /// rejected, whatever follows the number.
    pub proof fn lemma_unknown_tag_rejected(bytes: Seq<u8>)
        requires
            bytes.len() >= 4,
            !Self::known_tag(from_be32(bytes[0], bytes[1], bytes[2], bytes[3])),
        ensures
            Self::parse(bytes) == Err::<(UiToSecurityModel, nat), Error>(
                Error::Format(FormatError::UnknownDiscriminant),
            ),
    {
    }
}

impl Codec for UiToSecurityEvent {
    type Model = UiToSecurityModel;

    open spec fn model(&self) -> UiToSecurityModel {
        match self {
            Self::AsciiMessage(r) => {
                UiToSecurityModel::AsciiMessage(r.model())
            },
            Self::WatchChannel(r) => {
                UiToSecurityModel::WatchChannel(r.model())
            },
            Self::UnwatchChannel(r) => {
                UiToSecurityModel::UnwatchChannel(r.model())
            },
        }
    }

    open spec fn wire(v: UiToSecurityModel) -> Seq<u8> {
        match v {
            UiToSecurityModel::AsciiMessage(r) => {
                <(u32, AsciiMessage)>::wire((4u32, r))
            },
            UiToSecurityModel::WatchChannel(r) => {
                <(u32, WatchChannel)>::wire((7u32, r))
            },
            UiToSecurityModel::UnwatchChannel(r) => {
                <(u32, UnwatchChannel)>::wire((8u32, r))
            },
        }
    }

    open spec fn valid(v: UiToSecurityModel) -> bool {
        match v {
            UiToSecurityModel::AsciiMessage(r) => AsciiMessage::valid(r),
            UiToSecurityModel::WatchChannel(r) => WatchChannel::valid(r),
            UiToSecurityModel::UnwatchChannel(r) => UnwatchChannel::valid(r),
        }
    }

    open spec fn parse(bytes: Seq<u8>) -> Result<(UiToSecurityModel, nat), Error> {
        match u32::parse(bytes) {
            Err(e) => Err(e),
            Ok((tag, _)) => {
                let body = bytes.skip(4);
                if tag == 4 {
                    match AsciiMessage::parse(body) {
                        Ok((r, n)) => Ok((UiToSecurityModel::AsciiMessage(r), 4 + n)),
                        Err(e) => Err(e),
                    }
                } else if tag == 7 {
                    match WatchChannel::parse(body) {
                        Ok((r, n)) => Ok((UiToSecurityModel::WatchChannel(r), 4 + n)),
                        Err(e) => Err(e),
                    }
                } else if tag == 8 {
                    match UnwatchChannel::parse(body) {
                        Ok((r, n)) => Ok((UiToSecurityModel::UnwatchChannel(r), 4 + n)),
                        Err(e) => Err(e),
                    }
                } else {
                    Err(Error::Format(FormatError::UnknownDiscriminant))
                }
            },
        }
    }

    open spec fn framed() -> bool {
        true
    }

    open spec fn sequenced() -> bool {
        true
    }

    fn tls_serialized_len(&self) -> (n: usize) {
        match self {
            Self::AsciiMessage(r) => 4 + r.tls_serialized_len(),
            Self::WatchChannel(r) => 4 + r.tls_serialized_len(),
            Self::UnwatchChannel(r) => 4 + r.tls_serialized_len(),
        }
    }

    fn tls_serialize_detached(&self) -> (r: Result<Vec<u8>, Error>) {
        let tag: u32 = self.discriminant();
        match self {
            Self::AsciiMessage(r) => prepend(&tag, r.tls_serialize_detached()),
            Self::WatchChannel(r) => prepend(&tag, r.tls_serialize_detached()),
            Self::UnwatchChannel(r) => prepend(&tag, r.tls_serialize_detached()),
        }
    }

    fn tls_deserialize(bytes: &[u8]) -> (r: Result<(Self, usize), Error>) {
        match u32::tls_deserialize(bytes) {
            Err(e) => Err(e),
            Ok((tag, _)) => {
                if tag == 4 {
                    match read_after::<AsciiMessage>(bytes, 4) {
                        Ok((r, n)) => Ok((Self::AsciiMessage(r), n)),
                        Err(e) => Err(e),
                    }
                } else if tag == 7 {
                    match read_after::<WatchChannel>(bytes, 4) {
                        Ok((r, n)) => Ok((Self::WatchChannel(r), n)),
                        Err(e) => Err(e),
                    }
                } else if tag == 8 {
                    match read_after::<UnwatchChannel>(bytes, 4) {
                        Ok((r, n)) => Ok((Self::UnwatchChannel(r), n)),
                        Err(e) => Err(e),
                    }
                } else {
                    Err(Error::Format(FormatError::UnknownDiscriminant))
                }
            },
        }
    }

    proof fn lemma_round_trip(v: UiToSecurityModel, rest: Seq<u8>) {
        match v {
            UiToSecurityModel::AsciiMessage(r) => {
                <(u32, AsciiMessage)>::lemma_round_trip((4u32, r), rest);
            },
            UiToSecurityModel::WatchChannel(r) => {
                <(u32, WatchChannel)>::lemma_round_trip((7u32, r), rest);
            },
            UiToSecurityModel::UnwatchChannel(r) => {
                <(u32, UnwatchChannel)>::lemma_round_trip((8u32, r), rest);
            },
        }
    }

    proof fn lemma_truncated(v: UiToSecurityModel, k: nat) {
        match v {
            UiToSecurityModel::AsciiMessage(r) => {
                lemma_tagged_truncated::<AsciiMessage>(4u32, r, k);
            },
            UiToSecurityModel::WatchChannel(r) => {
                lemma_tagged_truncated::<WatchChannel>(7u32, r, k);
            },
            UiToSecurityModel::UnwatchChannel(r) => {
                lemma_tagged_truncated::<UnwatchChannel>(8u32, r, k);
            },
        }
    }
}

/// What the security plane hands to the user interface.
#[derive(Debug, PartialEq, Eq)]
pub enum SecurityToUiEvent {
    AsciiMessage(AsciiMessage),
}

/// What a `SecurityToUiEvent` stands for.
pub enum SecurityToUiModel {
    AsciiMessage(AsciiMessageModel),
}

impl SecurityToUiEvent {
    /// The tag that each variant is written under.
    pub open spec fn tag_of(v: SecurityToUiModel) -> u32 {
        match v {
            SecurityToUiModel::AsciiMessage(_) => 4,
        }
    }

    /// Whether `tag` is a tag of this union.
    pub open spec fn known_tag(tag: u32) -> bool {
        tag == 4
    }

    /// The bytes of the record that each variant carries.
    pub open spec fn body(v: SecurityToUiModel) -> Seq<u8> {
        match v {
            SecurityToUiModel::AsciiMessage(r) => AsciiMessage::wire(r),
        }
    }

    /// The tag that `self` is written under.
    pub fn discriminant(&self) -> (tag: u32)
        ensures
            tag == Self::tag_of(self.model()),
            Self::known_tag(tag),
    {
        match self {
            Self::AsciiMessage(_) => 4,
        }
    }

    /// Every variant has a tag of the union, and no two share one.
    pub proof fn lemma_tags_distinct(a: SecurityToUiModel, b: SecurityToUiModel)
        ensures
            Self::known_tag(Self::tag_of(a)),
            Self::tag_of(a) == Self::tag_of(b) ==> ((a is AsciiMessage && b is AsciiMessage)),
    {
    }

    /// A written event leads with the four bytes of its tag, and its record
    /// follows them.
    pub proof fn lemma_leads_with_tag(v: SecurityToUiModel)
        ensures
            Self::wire(v).len() >= 4,
            Self::wire(v).subrange(0, 4) == be32(Self::tag_of(v)),
            Self::wire(v).skip(4) == Self::body(v),
    {
        let w = Self::wire(v);
        assert(w =~= be32(Self::tag_of(v)) + Self::body(v));
        assert(w.subrange(0, 4) =~= be32(Self::tag_of(v)));
        assert(w.skip(4) =~= Self::body(v));
    }

    /// A buffer that leads with a number that is no tag of this union is
    /// rejected, whatever follows the number.
    pub proof fn lemma_unknown_tag_rejected(bytes: Seq<u8>)
        requires
            bytes.len() >= 4,
            !Self::known_tag(from_be32(bytes[0], bytes[1], bytes[2], bytes[3])),
        ensures
            Self::parse(bytes) == Err::<(SecurityToUiModel, nat), Error>(
                Error::Format(FormatError::UnknownDiscriminant),
            ),
    {
    }
}

impl Codec for SecurityToUiEvent {
    type Model = SecurityToUiModel;

    open spec fn model(&self) -> SecurityToUiModel {
        match self {
            Self::AsciiMessage(r) => {
                SecurityToUiModel::AsciiMessage(r.model())
            },
        }
    }

    open spec fn wire(v: SecurityToUiModel) -> Seq<u8> {
        match v {
            SecurityToUiModel::AsciiMessage(r) => {
                <(u32, AsciiMessage)>::wire((4u32, r))
            },
        }
    }

    open spec fn valid(v: SecurityToUiModel) -> bool {
        match v {
            SecurityToUiModel::AsciiMessage(r) => AsciiMessage::valid(r),
        }
    }

    open spec fn parse(bytes: Seq<u8>) -> Result<(SecurityToUiModel, nat), Error> {
        match u32::parse(bytes) {
            Err(e) => Err(e),
            Ok((tag, _)) => {
                let body = bytes.skip(4);
                if tag == 4 {
                    match AsciiMessage::parse(body) {
                        Ok((r, n)) => Ok((SecurityToUiModel::AsciiMessage(r), 4 + n)),
                        Err(e) => Err(e),
                    }
                } else {
                    Err(Error::Format(FormatError::UnknownDiscriminant))
                }
            },
        }
    }

    open spec fn framed() -> bool {
        true
    }

    open spec fn sequenced() -> bool {
        true
    }

    fn tls_serialized_len(&self) -> (n: usize) {
        match self {
            Self::AsciiMessage(r) => 4 + r.tls_serialized_len(),
        }
    }

    fn tls_serialize_detached(&self) -> (r: Result<Vec<u8>, Error>) {
        let tag: u32 = self.discriminant();
        match self {
            Self::AsciiMessage(r) => prepend(&tag, r.tls_serialize_detached()),
        }
    }

    fn tls_deserialize(bytes: &[u8]) -> (r: Result<(Self, usize), Error>) {
        match u32::tls_deserialize(bytes) {
            Err(e) => Err(e),
            Ok((tag, _)) => {
                if tag == 4 {
                    match read_after::<AsciiMessage>(bytes, 4) {
                        Ok((r, n)) => Ok((Self::AsciiMessage(r), n)),
                        Err(e) => Err(e),
                    }
                } else {
                    Err(Error::Format(FormatError::UnknownDiscriminant))
                }
            },
        }
    }

    proof fn lemma_round_trip(v: SecurityToUiModel, rest: Seq<u8>) {
        match v {
            SecurityToUiModel::AsciiMessage(r) => {
                <(u32, AsciiMessage)>::lemma_round_trip((4u32, r), rest);
            },
        }
    }

    proof fn lemma_truncated(v: SecurityToUiModel, k: nat) {
        match v {
            SecurityToUiModel::AsciiMessage(r) => {
                lemma_tagged_truncated::<AsciiMessage>(4u32, r, k);
            },
        }
    }
}

} // verus!
