use qmsg_core::codec::Codec;
use qmsg_core::error::{Error, FormatError};
use qmsg_core::events::{
    NetworkToSecurityEvent, SecurityToNetworkEvent, SecurityToUiEvent, UiToSecurityEvent,
};
use qmsg_core::opaque::{KeyPackageBytes, MlsMessageInBytes, MlsMessageOutBytes, WelcomeBytes};
use qmsg_core::records::{
    AsciiMessage, DeviceInfo, EncryptedAsciiMessageIn, EncryptedAsciiMessageOut, JoinRequest,
    MlsCommitIn, MlsCommitOut, MlsWelcome, UnwatchChannel, UnwatchDevices, WatchChannel,
    WatchDevices,
};
use qmsg_core::wrapper::TlsSerialized;
use tls_codec::{TlsByteVecU32, TlsVecU16};

fn join_request() -> JoinRequest {
    JoinRequest { team: 7, key_package: TlsSerialized::new(KeyPackageBytes::new(vec![1, 2, 3])) }
}

fn welcome() -> MlsWelcome {
    MlsWelcome { team: 7, welcome: TlsSerialized::new(WelcomeBytes::new(vec![4])) }
}

fn ascii() -> AsciiMessage {
    AsciiMessage { team: 1, channel: 2, device_id: 3, ascii: TlsByteVecU32::new(vec![72, 73]) }
}

fn tag_of(bytes: &[u8]) -> u32 {
    u32::from_be_bytes([bytes[0], bytes[1], bytes[2], bytes[3]])
}

#[test]
fn network_to_security_join_request_leads_with_tag_one() {
    let record_bytes = join_request().tls_serialize_detached().unwrap();
    let event = NetworkToSecurityEvent::JoinRequest(join_request());
    let bytes = event.tls_serialize_detached().unwrap();
    assert_eq!(&bytes[..4], &[0, 0, 0, 1]);
    assert_eq!(&bytes[4..], record_bytes.as_slice());
    assert_eq!(bytes, vec![0, 0, 0, 1, 0, 0, 0, 7, 0, 0, 0, 3, 1, 2, 3]);
    assert_eq!(event.tls_serialized_len(), 15);
    assert_eq!(NetworkToSecurityEvent::tls_deserialize(&bytes), Ok((event, 15)));
}

#[test]
fn security_to_network_rejects_tag_seven() {
    let input = [0, 0, 0, 7, 0, 0, 0, 1, 0, 0, 0, 2];
    assert_eq!(
        SecurityToNetworkEvent::tls_deserialize(&input),
        Err(Error::Format(FormatError::UnknownDiscriminant))
    );
}

#[test]
fn network_to_security_tags() {
    let commit = MlsCommitIn { team: 1, commit: TlsSerialized::new(MlsMessageInBytes::new(vec![])) };
    let cipher = EncryptedAsciiMessageIn {
        team: 1,
        channel: 2,
        ciphertext: TlsSerialized::new(MlsMessageInBytes::new(vec![9])),
    };
    let events = vec![
        (1u32, NetworkToSecurityEvent::JoinRequest(join_request())),
        (2, NetworkToSecurityEvent::MlsWelcome(welcome())),
        (3, NetworkToSecurityEvent::MlsCommit(commit)),
        (4, NetworkToSecurityEvent::EncryptedAsciiMessage(cipher)),
    ];
    for (tag, event) in events {
        assert_eq!(event.discriminant(), tag);
        let bytes = event.tls_serialize_detached().unwrap();
        assert_eq!(tag_of(&bytes), tag);
        let n = bytes.len();
        assert_eq!(NetworkToSecurityEvent::tls_deserialize(&bytes), Ok((event, n)));
    }
}

#[test]
fn security_to_network_tags() {
    let commit =
        MlsCommitOut { team: 1, commit: TlsSerialized::new(MlsMessageOutBytes::new(vec![5])) };
    let cipher = EncryptedAsciiMessageOut {
        team: 1,
        channel: 2,
        ciphertext: TlsSerialized::new(MlsMessageOutBytes::new(vec![9, 9])),
    };
    let watch = WatchDevices { team: 1, channel: 2, device_ids: TlsVecU16::new(vec![3, 4]) };
    let unwatch = UnwatchDevices { team: 1, channel: 2, device_ids: TlsVecU16::new(vec![3]) };
    let events = vec![
        (1u32, SecurityToNetworkEvent::JoinRequest(join_request())),
        (2, SecurityToNetworkEvent::MlsWelcome(welcome())),
        (3, SecurityToNetworkEvent::MlsCommitOut(commit)),
        (4, SecurityToNetworkEvent::EncryptedAsciiMessage(cipher)),
        (5, SecurityToNetworkEvent::WatchDevices(watch)),
        (6, SecurityToNetworkEvent::UnwatchDevices(unwatch)),
        (9, SecurityToNetworkEvent::DeviceInfo(DeviceInfo { team: 1, device_id: 2 })),
    ];
    for (tag, event) in events {
        assert_eq!(event.discriminant(), tag);
        let bytes = event.tls_serialize_detached().unwrap();
        assert_eq!(tag_of(&bytes), tag);
        let n = bytes.len();
        assert_eq!(SecurityToNetworkEvent::tls_deserialize(&bytes), Ok((event, n)));
    }
}

#[test]
fn ui_to_security_tags() {
    let events = vec![
        (4u32, UiToSecurityEvent::AsciiMessage(ascii())),
        (7, UiToSecurityEvent::WatchChannel(WatchChannel { team: 1, channel: 2 })),
        (8, UiToSecurityEvent::UnwatchChannel(UnwatchChannel { team: 1, channel: 2 })),
    ];
    for (tag, event) in events {
        assert_eq!(event.discriminant(), tag);
        let bytes = event.tls_serialize_detached().unwrap();
        assert_eq!(tag_of(&bytes), tag);
        let n = bytes.len();
        assert_eq!(UiToSecurityEvent::tls_deserialize(&bytes), Ok((event, n)));
    }
}

#[test]
fn security_to_ui_tags() {
    let event = SecurityToUiEvent::AsciiMessage(ascii());
    assert_eq!(event.discriminant(), 4);
    let bytes = event.tls_serialize_detached().unwrap();
    assert_eq!(
        bytes,
        vec![0, 0, 0, 4, 0, 0, 0, 1, 0, 0, 0, 2, 0, 3, 0, 0, 0, 2, 72, 73]
    );
    assert_eq!(SecurityToUiEvent::tls_deserialize(&bytes), Ok((event, 20)));
}

#[test]
fn tag_four_means_another_record_in_each_union() {
    let bytes = SecurityToUiEvent::AsciiMessage(ascii()).tls_serialize_detached().unwrap();
    let (ui, _) = UiToSecurityEvent::tls_deserialize(&bytes).unwrap();
    assert_eq!(ui, UiToSecurityEvent::AsciiMessage(ascii()));
    // Read as a network event, the same bytes are a ciphertext record: team,
    // channel, then a wrapped object whose declared length is 0x00030000.
    assert_eq!(NetworkToSecurityEvent::tls_deserialize(&bytes), Err(Error::Io));
}

#[test]
fn unknown_tags_are_rejected_in_every_union() {
    let body = [0u8; 64];
    for tag in [0u32, 5, 6, 7, 8, 9, 10, 0x01000000, u32::MAX] {
        let mut input = tag.to_be_bytes().to_vec();
        input.extend_from_slice(&body);
        assert_eq!(
            NetworkToSecurityEvent::tls_deserialize(&input),
            Err(Error::Format(FormatError::UnknownDiscriminant))
        );
    }
    for tag in [0u32, 7, 8, 10, 0x00000100, u32::MAX] {
        let mut input = tag.to_be_bytes().to_vec();
        input.extend_from_slice(&body);
        assert_eq!(
            SecurityToNetworkEvent::tls_deserialize(&input),
            Err(Error::Format(FormatError::UnknownDiscriminant))
        );
    }
    for tag in [0u32, 1, 2, 3, 5, 6, 9, u32::MAX] {
        let mut input = tag.to_be_bytes().to_vec();
        input.extend_from_slice(&body);
        assert_eq!(
            UiToSecurityEvent::tls_deserialize(&input),
            Err(Error::Format(FormatError::UnknownDiscriminant))
        );
    }
    for tag in [0u32, 1, 2, 3, 5, 7, 8, u32::MAX] {
        let mut input = tag.to_be_bytes().to_vec();
        input.extend_from_slice(&body);
        assert_eq!(
            SecurityToUiEvent::tls_deserialize(&input),
            Err(Error::Format(FormatError::UnknownDiscriminant))
        );
    }
}

#[test]
fn unknown_tag_with_nothing_behind_it_is_still_unknown() {
    assert_eq!(
        SecurityToUiEvent::tls_deserialize(&[0, 0, 0, 5]),
        Err(Error::Format(FormatError::UnknownDiscriminant))
    );
}

#[test]
fn truncated_events_are_io_errors() {
    let bytes = SecurityToNetworkEvent::WatchDevices(WatchDevices {
        team: 1,
        channel: 2,
        device_ids: TlsVecU16::new(vec![3, 4]),
    })
    .tls_serialize_detached()
    .unwrap();
    assert_eq!(bytes.len(), 18);
    for k in 0..bytes.len() {
        assert_eq!(SecurityToNetworkEvent::tls_deserialize(&bytes[..k]), Err(Error::Io));
    }
    let bytes = NetworkToSecurityEvent::JoinRequest(join_request()).tls_serialize_detached().unwrap();
    for k in 0..bytes.len() {
        assert_eq!(NetworkToSecurityEvent::tls_deserialize(&bytes[..k]), Err(Error::Io));
    }
}

#[test]
fn an_event_is_read_off_the_front_of_a_longer_buffer() {
    let mut bytes = UiToSecurityEvent::WatchChannel(WatchChannel { team: 1, channel: 2 })
        .tls_serialize_detached()
        .unwrap();
    bytes.extend_from_slice(&[0xde, 0xad]);
    assert_eq!(
        UiToSecurityEvent::tls_deserialize(&bytes),
        Ok((UiToSecurityEvent::WatchChannel(WatchChannel { team: 1, channel: 2 }), 12))
    );
}
