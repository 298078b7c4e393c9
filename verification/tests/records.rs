use qmsg_core::codec::Codec;
use qmsg_core::error::{Error, FormatError};
use qmsg_core::opaque::{KeyPackageBytes, MlsMessageInBytes, MlsMessageOutBytes, WelcomeBytes};
use qmsg_core::records::{
    AsciiMessage, DeviceInfo, EncryptedAsciiMessageIn, EncryptedAsciiMessageOut, JoinRequest,
    MlsCommitIn, MlsCommitOut, MlsWelcome, UnwatchChannel, UnwatchDevices, WatchChannel,
    WatchDevices,
};
use qmsg_core::wrapper::TlsSerialized;
use tls_codec::{TlsByteVecU32, TlsVecU16};

#[test]
fn ascii_message_round_trips() {
    let original = AsciiMessage {
        team: 1,
        channel: 2,
        device_id: 3,
        ascii: TlsByteVecU32::new(vec![72, 73]),
    };
    let bytes = original.tls_serialize_detached().unwrap();
    assert_eq!(bytes, vec![0, 0, 0, 1, 0, 0, 0, 2, 0, 3, 0, 0, 0, 2, 72, 73]);
    assert_eq!(original.tls_serialized_len(), 16);
    let (back, taken) = AsciiMessage::tls_deserialize(&bytes).unwrap();
    assert_eq!(taken, 16);
    assert_eq!(back, original);
}

#[test]
fn ascii_message_with_no_text() {
    let original =
        AsciiMessage { team: 9, channel: 8, device_id: 7, ascii: TlsByteVecU32::new(vec![]) };
    let bytes = original.tls_serialize_detached().unwrap();
    assert_eq!(bytes, vec![0, 0, 0, 9, 0, 0, 0, 8, 0, 7, 0, 0, 0, 0]);
    let (back, taken) = AsciiMessage::tls_deserialize(&bytes).unwrap();
    assert_eq!(taken, 14);
    assert_eq!(back, original);
}

#[test]
fn ascii_message_cut_short_is_an_io_error() {
    let bytes = vec![0, 0, 0, 1, 0, 0, 0, 2, 0, 3, 0, 0, 0, 2, 72, 73];
    for k in 0..bytes.len() {
        assert_eq!(AsciiMessage::tls_deserialize(&bytes[..k]), Err(Error::Io));
    }
}

#[test]
fn join_request_is_team_then_wrapped_key_package() {
    let original = JoinRequest {
        team: 0x01020304,
        key_package: TlsSerialized::new(KeyPackageBytes::new(vec![5, 6, 7])),
    };
    let bytes = original.tls_serialize_detached().unwrap();
    assert_eq!(bytes, vec![1, 2, 3, 4, 0, 0, 0, 3, 5, 6, 7]);
    assert_eq!(original.tls_serialized_len(), 11);
    let (back, taken) = JoinRequest::tls_deserialize(&bytes).unwrap();
    assert_eq!(taken, 11);
    assert_eq!(back, original);
}

#[test]
fn welcome_round_trips() {
    let original =
        MlsWelcome { team: 5, welcome: TlsSerialized::new(WelcomeBytes::new(vec![1, 1, 2])) };
    let bytes = original.tls_serialize_detached().unwrap();
    assert_eq!(bytes, vec![0, 0, 0, 5, 0, 0, 0, 3, 1, 1, 2]);
    assert_eq!(MlsWelcome::tls_deserialize(&bytes), Ok((original, 11)));
}

#[test]
fn commits_round_trip_in_both_forms() {
    let incoming =
        MlsCommitIn { team: 6, commit: TlsSerialized::new(MlsMessageInBytes::new(vec![8])) };
    let bytes = incoming.tls_serialize_detached().unwrap();
    assert_eq!(bytes, vec![0, 0, 0, 6, 0, 0, 0, 1, 8]);
    assert_eq!(MlsCommitIn::tls_deserialize(&bytes), Ok((incoming, 9)));

    let outgoing =
        MlsCommitOut { team: 6, commit: TlsSerialized::new(MlsMessageOutBytes::new(vec![8, 9])) };
    let bytes = outgoing.tls_serialize_detached().unwrap();
    assert_eq!(bytes, vec![0, 0, 0, 6, 0, 0, 0, 2, 8, 9]);
    assert_eq!(MlsCommitOut::tls_deserialize(&bytes), Ok((outgoing, 10)));
}

#[test]
fn ciphertexts_round_trip_in_both_forms() {
    let incoming = EncryptedAsciiMessageIn {
        team: 1,
        channel: 2,
        ciphertext: TlsSerialized::new(MlsMessageInBytes::new(vec![3, 4])),
    };
    let bytes = incoming.tls_serialize_detached().unwrap();
    assert_eq!(bytes, vec![0, 0, 0, 1, 0, 0, 0, 2, 0, 0, 0, 2, 3, 4]);
    assert_eq!(EncryptedAsciiMessageIn::tls_deserialize(&bytes), Ok((incoming, 14)));

    let outgoing = EncryptedAsciiMessageOut {
        team: 1,
        channel: 2,
        ciphertext: TlsSerialized::new(MlsMessageOutBytes::new(vec![])),
    };
    let bytes = outgoing.tls_serialize_detached().unwrap();
    assert_eq!(bytes, vec![0, 0, 0, 1, 0, 0, 0, 2, 0, 0, 0, 0]);
    assert_eq!(EncryptedAsciiMessageOut::tls_deserialize(&bytes), Ok((outgoing, 12)));
}

#[test]
fn watch_devices_counts_bytes_in_two_bytes() {
    let original = WatchDevices {
        team: 1,
        channel: 2,
        device_ids: TlsVecU16::new(vec![0x0102, 0xfffe, 0]),
    };
    let bytes = original.tls_serialize_detached().unwrap();
    assert_eq!(bytes, vec![0, 0, 0, 1, 0, 0, 0, 2, 0, 6, 1, 2, 255, 254, 0, 0]);
    assert_eq!(original.tls_serialized_len(), 16);
    let (back, taken) = WatchDevices::tls_deserialize(&bytes).unwrap();
    assert_eq!(taken, 16);
    assert_eq!(back, original);
}

#[test]
fn unwatch_devices_round_trips() {
    let original =
        UnwatchDevices { team: 3, channel: 4, device_ids: TlsVecU16::new(vec![]) };
    let bytes = original.tls_serialize_detached().unwrap();
    assert_eq!(bytes, vec![0, 0, 0, 3, 0, 0, 0, 4, 0, 0]);
    assert_eq!(UnwatchDevices::tls_deserialize(&bytes), Ok((original, 10)));
}

#[test]
fn device_list_at_the_limit_of_its_prefix() {
    let most = WatchDevices {
        team: 0,
        channel: 0,
        device_ids: TlsVecU16::new((0..32767u16).collect()),
    };
    let bytes = most.tls_serialize_detached().unwrap();
    assert_eq!(bytes.len(), 8 + 2 + 65534);
    assert_eq!(&bytes[8..10], &[0xff, 0xfe]);
    assert_eq!(WatchDevices::tls_deserialize(&bytes), Ok((most, 65544)));

    let too_many = WatchDevices {
        team: 0,
        channel: 0,
        device_ids: TlsVecU16::new((0..32768u32).map(|i| i as u16).collect()),
    };
    assert_eq!(
        too_many.tls_serialize_detached(),
        Err(Error::Format(FormatError::LengthMismatch))
    );
}

#[test]
fn device_list_with_an_odd_byte_count_reads_whole_identifiers() {
    let input = [0, 0, 0, 1, 0, 0, 0, 2, 0, 3, 0, 5, 0, 6, 9];
    let (back, taken) = WatchDevices::tls_deserialize(&input).unwrap();
    assert_eq!(taken, 14);
    assert_eq!(back.device_ids.as_slice(), &[5, 6]);
    let short = [0, 0, 0, 1, 0, 0, 0, 2, 0, 3, 0, 5, 0];
    assert_eq!(WatchDevices::tls_deserialize(&short), Err(Error::Io));
}

#[test]
fn channel_records_are_two_numbers() {
    let watch = WatchChannel { team: 1, channel: 0x01000000 };
    let bytes = watch.tls_serialize_detached().unwrap();
    assert_eq!(bytes, vec![0, 0, 0, 1, 1, 0, 0, 0]);
    assert_eq!(WatchChannel::tls_deserialize(&bytes), Ok((watch, 8)));

    let unwatch = UnwatchChannel { team: 2, channel: 3 };
    let bytes = unwatch.tls_serialize_detached().unwrap();
    assert_eq!(bytes, vec![0, 0, 0, 2, 0, 0, 0, 3]);
    assert_eq!(UnwatchChannel::tls_deserialize(&bytes), Ok((unwatch, 8)));
    assert_eq!(UnwatchChannel::tls_deserialize(&bytes[..7]), Err(Error::Io));
}

#[test]
fn device_info_is_team_then_device() {
    let info = DeviceInfo { team: 0x0a0b0c0d, device_id: 0x0e0f };
    let bytes = info.tls_serialize_detached().unwrap();
    assert_eq!(bytes, vec![10, 11, 12, 13, 14, 15]);
    assert_eq!(info.tls_serialized_len(), 6);
    assert_eq!(DeviceInfo::tls_deserialize(&[10, 11, 12, 13, 14, 15, 16]), Ok((info, 6)));
}
