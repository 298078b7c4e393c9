use qmsg_core::codec::{prepend, read_after, tls_serialize, Codec};
use qmsg_core::error::{Error, FormatError};
use qmsg_core::opaque::KeyPackageBytes;
use qmsg_core::wrapper::TlsSerialized;

#[test]
fn test_tls_serialized() {
    let original = TlsSerialized::new((1u16, (2u32, 3u8)));

    let serialized = original.tls_serialize_detached().unwrap();
    assert_eq!(serialized, [0, 0, 0, 7, 0, 1, 0, 0, 0, 2, 3]);

    let (deserialized, taken): (TlsSerialized<(u16, (u32, u8))>, usize) =
        TlsSerialized::tls_deserialize(serialized.as_slice()).unwrap();
    assert_eq!(deserialized, original);
    assert_eq!(taken, 11);
}

#[test]
fn wrapper_new_then_unwrap_gives_the_value_back() {
    let wrapped = TlsSerialized::new(513u16);
    assert_eq!(wrapped.unwrap(), 513u16);
}

#[test]
fn wrapper_size_is_four_more_than_the_inner_size() {
    let wrapped = TlsSerialized::new((1u16, (2u32, 3u8)));
    assert_eq!(wrapped.tls_serialized_len(), 11);
    let inner = (1u16, (2u32, 3u8));
    assert_eq!(inner.tls_serialized_len(), 7);
}

#[test]
fn wrapper_prefix_spells_the_inner_length() {
    let payload: Vec<u8> = (0..300u32).map(|i| (i % 251) as u8).collect();
    let wrapped = TlsSerialized::new(KeyPackageBytes::new(payload.clone()));
    let bytes = wrapped.tls_serialize_detached().unwrap();
    assert_eq!(&bytes[..4], &[0, 0, 1, 44]);
    assert_eq!(bytes.len(), 4 + 300);
    assert_eq!(&bytes[4..], payload.as_slice());
}

#[test]
fn wrapper_of_nothing_is_a_zero_prefix() {
    let wrapped = TlsSerialized::new(KeyPackageBytes::new(Vec::new()));
    assert_eq!(wrapped.tls_serialize_detached().unwrap(), vec![0, 0, 0, 0]);
    let (back, taken) =
        TlsSerialized::<KeyPackageBytes>::tls_deserialize(&[0, 0, 0, 0, 9, 9]).unwrap();
    assert_eq!(taken, 4);
    assert_eq!(back.unwrap().into_vec(), Vec::<u8>::new());
}

#[test]
fn wrapper_reads_exactly_the_declared_bytes() {
    let input = [0, 0, 0, 2, 10, 11, 12, 13];
    let (back, taken) = TlsSerialized::<KeyPackageBytes>::tls_deserialize(&input).unwrap();
    assert_eq!(taken, 6);
    assert_eq!(back.unwrap().as_slice(), &[10, 11]);
}

#[test]
fn wrapper_drops_what_the_inner_value_leaves_over() {
    // Three bytes are declared; the inner u16 takes two of them.
    let input = [0, 0, 0, 3, 1, 2, 99, 77];
    let (back, taken) = TlsSerialized::<u16>::tls_deserialize(&input).unwrap();
    assert_eq!(taken, 7);
    assert_eq!(back.unwrap(), 258);
}

#[test]
fn wrapper_truncated_body_is_an_io_error() {
    let input = [0, 0, 0, 7, 0, 1, 0, 0, 0, 2];
    let r = TlsSerialized::<(u16, (u32, u8))>::tls_deserialize(&input);
    assert_eq!(r, Err(Error::Io));
}

#[test]
fn wrapper_truncated_prefix_is_an_io_error() {
    let r = TlsSerialized::<u8>::tls_deserialize(&[0, 0, 0]);
    assert_eq!(r, Err(Error::Io));
    let r = TlsSerialized::<u8>::tls_deserialize(&[]);
    assert_eq!(r, Err(Error::Io));
}

#[test]
fn wrapper_every_cut_of_a_written_value_is_an_io_error() {
    let bytes = TlsSerialized::new((1u16, (2u32, 3u8))).tls_serialize_detached().unwrap();
    for k in 0..bytes.len() {
        let r = TlsSerialized::<(u16, (u32, u8))>::tls_deserialize(&bytes[..k]);
        assert_eq!(r, Err(Error::Io));
    }
}

#[test]
fn wrapper_inner_rejection_is_inner_decode_failed() {
    // Two bytes are declared and present, but the inner u32 needs four.
    let input = [0, 0, 0, 2, 1, 2, 3, 4];
    let r = TlsSerialized::<u32>::tls_deserialize(&input);
    assert_eq!(r, Err(Error::Format(FormatError::InnerDecodeFailed)));
}

#[test]
fn nested_wrappers_round_trip() {
    let original = TlsSerialized::new(TlsSerialized::new(7u8));
    let bytes = original.tls_serialize_detached().unwrap();
    assert_eq!(bytes, vec![0, 0, 0, 5, 0, 0, 0, 1, 7]);
    let (back, taken) = TlsSerialized::<TlsSerialized<u8>>::tls_deserialize(&bytes).unwrap();
    assert_eq!(taken, 9);
    assert_eq!(back, original);
}

#[test]
fn serialize_appends_to_what_is_there() {
    let mut out = vec![42u8];
    let n = tls_serialize(&TlsSerialized::new(0x0102u16), &mut out).unwrap();
    assert_eq!(n, 6);
    assert_eq!(out, vec![42, 0, 0, 0, 2, 1, 2]);
}

#[test]
fn integers_are_big_endian() {
    assert_eq!(0xabu8.tls_serialize_detached().unwrap(), vec![0xab]);
    assert_eq!(0x1234u16.tls_serialize_detached().unwrap(), vec![0x12, 0x34]);
    assert_eq!(0x01020304u32.tls_serialize_detached().unwrap(), vec![1, 2, 3, 4]);
    assert_eq!(u32::MAX.tls_serialize_detached().unwrap(), vec![255, 255, 255, 255]);
    assert_eq!(u8::tls_deserialize(&[0xab, 1]), Ok((0xab, 1)));
    assert_eq!(u16::tls_deserialize(&[0x12, 0x34, 1]), Ok((0x1234, 2)));
    assert_eq!(u32::tls_deserialize(&[1, 2, 3, 4, 5]), Ok((0x01020304, 4)));
    assert_eq!(u32::tls_deserialize(&[255, 255, 255, 255]), Ok((u32::MAX, 4)));
    assert_eq!(u16::tls_deserialize(&[1]), Err(Error::Io));
    assert_eq!(u32::tls_deserialize(&[1, 2, 3]), Err(Error::Io));
    assert_eq!(u8::tls_deserialize(&[]), Err(Error::Io));
}

#[test]
fn pairs_are_written_one_after_the_other() {
    let pair = (0x0102u16, 0x03u8);
    assert_eq!(pair.tls_serialize_detached().unwrap(), vec![1, 2, 3]);
    assert_eq!(<(u16, u8)>::tls_deserialize(&[1, 2, 3, 4]), Ok(((0x0102, 3), 3)));
    assert_eq!(<(u16, u8)>::tls_deserialize(&[1, 2]), Err(Error::Io));
}

#[test]
fn prepend_puts_the_head_in_front() {
    assert_eq!(prepend(&0x0102u16, Ok(vec![9, 8])), Ok(vec![1, 2, 9, 8]));
    assert_eq!(prepend(&7u8, Err(Error::Io)), Err(Error::Io));
}

#[test]
fn read_after_counts_the_skipped_bytes_in() {
    assert_eq!(read_after::<u16>(&[9, 9, 9, 1, 2, 3], 3), Ok((0x0102, 5)));
    assert_eq!(read_after::<u16>(&[9, 9, 9, 1], 3), Err(Error::Io));
    assert_eq!(read_after::<u8>(&[9], 1), Err(Error::Io));
    assert_eq!(read_after::<u8>(&[9], 2), Err(Error::Io));
}
