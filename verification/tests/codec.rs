use x11_handshake::byteorder::{BigEndian, ByteOrder, LittleEndian, BIG_MARKER, LITTLE_MARKER};
use x11_handshake::errors::{ConnectionError, ParseError};
use x11_handshake::protocol::Format;
use x11_handshake::utils::{
    align_to_4, deserialize_into, deserialize_into_string, deserialize_into_vec,
    deserialize_into_vec_with, deserialize_into_with, read_u16, read_u32, trim_by_padding,
    Deserialize, DeserializeList,
};

fn host_order() -> ByteOrder {
    if u16::from_ne_bytes([1, 0]) == 1 {
        ByteOrder::Little
    } else {
        ByteOrder::Big
    }
}

#[test]
fn big_endian_writes_most_significant_byte_first() {
    let mut buf = [0xaau8; 4];
    BigEndian.write_u16(&mut buf, 0x1234);
    assert_eq!(buf, [0x12, 0x34, 0xaa, 0xaa]);
}

#[test]
fn little_endian_writes_least_significant_byte_first() {
    let mut buf = [0xaau8; 4];
    LittleEndian.write_u16(&mut buf, 0x1234);
    assert_eq!(buf, [0x34, 0x12, 0xaa, 0xaa]);
}

#[test]
fn write_u16_fills_a_buffer_of_two_bytes() {
    let mut buf = [0u8; 2];
    BigEndian.write_u16(&mut buf, 0xffff);
    assert_eq!(buf, [0xff, 0xff]);
    LittleEndian.write_u16(&mut buf, 1);
    assert_eq!(buf, [1, 0]);
}

#[test]
fn native_order_is_the_order_of_the_host() {
    assert_eq!(ByteOrder::native(), host_order());
}

#[test]
fn the_bytes_of_one_tell_the_order() {
    assert_eq!(ByteOrder::of_probe(1u16.to_le_bytes()), ByteOrder::Little);
    assert_eq!(ByteOrder::of_probe(1u16.to_be_bytes()), ByteOrder::Big);
    assert_eq!(ByteOrder::of_probe(1u16.to_ne_bytes()), ByteOrder::native());
}

#[test]
fn markers_are_the_letters_l_and_b() {
    assert_eq!(LITTLE_MARKER, b'l');
    assert_eq!(BIG_MARKER, b'B');
    assert_eq!(ByteOrder::Little.marker(), b'l');
    assert_eq!(ByteOrder::Big.marker(), b'B');
    assert_eq!(ByteOrder::from_marker(b'l'), Some(ByteOrder::Little));
    assert_eq!(ByteOrder::from_marker(b'B'), Some(ByteOrder::Big));
    assert_eq!(ByteOrder::from_marker(b'b'), None);
    assert_eq!(ByteOrder::from_marker(0), None);
}

#[test]
fn put_u16_appends_in_the_given_order() {
    let mut out = vec![9u8];
    ByteOrder::Little.put_u16(&mut out, 0x0b00);
    ByteOrder::Big.put_u16(&mut out, 0x0b00);
    assert_eq!(out, vec![9, 0x00, 0x0b, 0x0b, 0x00]);
}

#[test]
fn put_u16_and_read_u16_round_trip() {
    for order in [ByteOrder::Little, ByteOrder::Big] {
        for n in [0u16, 1, 255, 256, 0x1234, 0xfffe, 0xffff] {
            let mut out = Vec::new();
            order.put_u16(&mut out, n);
            assert_eq!(out.len(), 2);
            assert_eq!(read_u16(&out, 0, order), n);
        }
    }
}

#[test]
fn read_u16_and_read_u32_at_an_offset() {
    let bytes = [0xffu8, 0x01, 0x02, 0x03, 0x04, 0x05];
    assert_eq!(read_u16(&bytes, 1, ByteOrder::Little), 0x0201);
    assert_eq!(read_u16(&bytes, 1, ByteOrder::Big), 0x0102);
    assert_eq!(read_u32(&bytes, 1, ByteOrder::Little), 0x04030201);
    assert_eq!(read_u32(&bytes, 2, ByteOrder::Big), 0x02030405);
}

#[test]
fn connection_error_messages() {
    assert_eq!(
        ConnectionError::InvalidSocketPath.message(),
        "Failed to connect: The socket path is invalid"
    );
    assert_eq!(
        ConnectionError::ConnectionNotEstablished.message(),
        "Failed to connect: Connection to the server is not established"
    );
    assert_eq!(
        ConnectionError::ConnectionRefused.message(),
        "Failed to connect: Connection is refused by the server"
    );
    assert_eq!(
        ConnectionError::FurtherAuthenticationRequired.message(),
        "Failed to connect: Further authentication is required"
    );
    assert_eq!(
        ConnectionError::InvalidResponseFromServer.message(),
        "Failed to connect: Invalid response from server on connection setup"
    );
}

#[test]
fn parse_error_messages() {
    assert_eq!(
        ParseError::OutOfBound.message(),
        "Failed to parse: The provided range is out of bound"
    );
    assert_eq!(
        ParseError::NotEnoughData.message(),
        "Failed to parse: Not enough data to parse: Out of bound"
    );
    assert_eq!(ParseError::OverFlow.message(), "Failed to parse: data length overflow");
    assert_eq!(ParseError::Failed.message(), "Failed to parse");
    assert_eq!(ParseError::InvalidLength.message(), "Failed to parse: Invalid data length");
}

#[test]
fn every_parse_error_becomes_connection_not_established() {
    for e in [
        ParseError::OutOfBound,
        ParseError::NotEnoughData,
        ParseError::OverFlow,
        ParseError::Failed,
        ParseError::InvalidLength,
    ] {
        assert_eq!(ConnectionError::from(e), ConnectionError::ConnectionNotEstablished);
    }
}

#[test]
fn deserialize_into_with_reads_each_width_in_both_orders() {
    let bytes = [0x01u8, 0x02, 0x03, 0x04, 0x05, 0x06, 0x07, 0x08, 0x09];

    let (v, rest) = deserialize_into_with::<u8>(&bytes, ByteOrder::Little).unwrap();
    assert_eq!(v, 0x01);
    assert_eq!(rest, &bytes[1..]);

    let (v, rest) = deserialize_into_with::<u16>(&bytes, ByteOrder::Little).unwrap();
    assert_eq!(v, 0x0201);
    assert_eq!(rest, &bytes[2..]);
    let (v, _) = deserialize_into_with::<u16>(&bytes, ByteOrder::Big).unwrap();
    assert_eq!(v, 0x0102);

    let (v, rest) = deserialize_into_with::<u32>(&bytes, ByteOrder::Little).unwrap();
    assert_eq!(v, 0x04030201);
    assert_eq!(rest, &bytes[4..]);
    let (v, _) = deserialize_into_with::<u32>(&bytes, ByteOrder::Big).unwrap();
    assert_eq!(v, 0x01020304);

    let (v, rest) = deserialize_into_with::<u64>(&bytes, ByteOrder::Little).unwrap();
    assert_eq!(v, 0x0807060504030201);
    assert_eq!(rest, &[0x09]);
    let (v, _) = deserialize_into_with::<u64>(&bytes, ByteOrder::Big).unwrap();
    assert_eq!(v, 0x0102030405060708);
}

#[test]
fn deserialize_into_with_agrees_with_std() {
    let bytes = [0xdeu8, 0xad, 0xbe, 0xef, 0x01, 0x23, 0x45, 0x67];
    assert_eq!(
        deserialize_into_with::<u16>(&bytes, ByteOrder::Little).unwrap().0,
        u16::from_le_bytes([0xde, 0xad])
    );
    assert_eq!(
        deserialize_into_with::<u16>(&bytes, ByteOrder::Big).unwrap().0,
        u16::from_be_bytes([0xde, 0xad])
    );
    assert_eq!(
        deserialize_into_with::<u32>(&bytes, ByteOrder::Little).unwrap().0,
        u32::from_le_bytes([0xde, 0xad, 0xbe, 0xef])
    );
    assert_eq!(
        deserialize_into_with::<u32>(&bytes, ByteOrder::Big).unwrap().0,
        u32::from_be_bytes([0xde, 0xad, 0xbe, 0xef])
    );
    assert_eq!(
        deserialize_into_with::<u64>(&bytes, ByteOrder::Little).unwrap().0,
        u64::from_le_bytes(bytes)
    );
    assert_eq!(
        deserialize_into_with::<u64>(&bytes, ByteOrder::Big).unwrap().0,
        u64::from_be_bytes(bytes)
    );
}

#[test]
fn deserialize_into_reads_in_host_order() {
    let bytes = [0x11u8, 0x22, 0x33, 0x44, 0x55, 0x66, 0x77, 0x88, 0x99];
    let (v, rest) = deserialize_into::<u16>(&bytes).unwrap();
    assert_eq!(v, u16::from_ne_bytes([0x11, 0x22]));
    assert_eq!(rest, &bytes[2..]);
    let (v, rest) = deserialize_into::<u32>(&bytes).unwrap();
    assert_eq!(v, u32::from_ne_bytes([0x11, 0x22, 0x33, 0x44]));
    assert_eq!(rest, &bytes[4..]);
    let (v, rest) = deserialize_into::<u64>(&bytes).unwrap();
    assert_eq!(v, u64::from_ne_bytes([0x11, 0x22, 0x33, 0x44, 0x55, 0x66, 0x77, 0x88]));
    assert_eq!(rest, &[0x99]);
    let (v, rest) = deserialize_into::<u8>(&bytes).unwrap();
    assert_eq!(v, 0x11);
    assert_eq!(rest.len(), 8);
}

#[test]
fn short_buffer_gives_not_enough_data() {
    assert_eq!(deserialize_into::<u8>(&[]).unwrap_err(), ParseError::NotEnoughData);
    assert_eq!(deserialize_into::<u16>(&[1]).unwrap_err(), ParseError::NotEnoughData);
    assert_eq!(deserialize_into::<u32>(&[1, 2, 3]).unwrap_err(), ParseError::NotEnoughData);
    assert_eq!(
        deserialize_into::<u64>(&[1, 2, 3, 4, 5, 6, 7]).unwrap_err(),
        ParseError::NotEnoughData
    );
    for order in [ByteOrder::Little, ByteOrder::Big] {
        assert_eq!(
            deserialize_into_with::<u16>(&[], order).unwrap_err(),
            ParseError::NotEnoughData
        );
        assert_eq!(
            deserialize_into_with::<u32>(&[0; 3], order).unwrap_err(),
            ParseError::NotEnoughData
        );
    }
}

#[test]
fn exact_buffer_leaves_nothing() {
    let (v, rest) = deserialize_into_with::<u32>(&[1, 0, 0, 0], ByteOrder::Little).unwrap();
    assert_eq!(v, 1);
    assert!(rest.is_empty());
}

#[test]
fn deserialize_wants_the_exact_width() {
    let order = ByteOrder::Little;
    assert_eq!(<u8 as Deserialize>::deserialize(&[], order), Err(ParseError::OutOfBound));
    assert_eq!(<u8 as Deserialize>::deserialize(&[1, 2], order), Err(ParseError::OutOfBound));
    assert_eq!(<u8 as Deserialize>::deserialize(&[7], order), Ok(7));
    assert_eq!(<u16 as Deserialize>::deserialize(&[1], order), Err(ParseError::OutOfBound));
    assert_eq!(<u16 as Deserialize>::deserialize(&[1, 2, 3], order), Err(ParseError::OutOfBound));
    assert_eq!(<u16 as Deserialize>::deserialize(&[1, 2], order), Ok(0x0201));
    assert_eq!(<u32 as Deserialize>::deserialize(&[1, 2], order), Err(ParseError::OutOfBound));
    assert_eq!(<u32 as Deserialize>::deserialize(&[0; 5], order), Err(ParseError::OutOfBound));
    assert_eq!(<u32 as Deserialize>::deserialize(&[1, 2, 3], order), Err(ParseError::OutOfBound));
    assert_eq!(<u32 as Deserialize>::deserialize(&[], order), Err(ParseError::OutOfBound));
    assert_eq!(<u32 as Deserialize>::deserialize(&[1, 2, 3, 4], order), Ok(0x04030201));
    assert_eq!(<u64 as Deserialize>::deserialize(&[0; 7], order), Err(ParseError::OutOfBound));
    assert_eq!(<u64 as Deserialize>::deserialize(&[0; 9], order), Err(ParseError::OutOfBound));
    assert_eq!(
        <u64 as Deserialize>::deserialize(&[1, 0, 0, 0, 0, 0, 0, 0x80], order),
        Ok(0x8000000000000001)
    );
}

#[test]
fn sizes_of_the_fixed_width_values() {
    assert_eq!(<u8 as Deserialize>::size(), 1);
    assert_eq!(<u16 as Deserialize>::size(), 2);
    assert_eq!(<u32 as Deserialize>::size(), 4);
    assert_eq!(<u64 as Deserialize>::size(), 8);
    assert_eq!(<Format as DeserializeList>::size(), 8);
}

#[test]
fn deserialize_into_string_reads_the_stated_length() {
    let bytes = b"The X.Org Foundation and more";
    let (text, rest) = deserialize_into_string(bytes, 20).unwrap();
    assert_eq!(text, "The X.Org Foundation");
    assert_eq!(rest, b" and more");
}

#[test]
fn deserialize_into_string_of_length_zero() {
    let (text, rest) = deserialize_into_string(b"abc", 0).unwrap();
    assert_eq!(text, "");
    assert_eq!(rest, b"abc");
    let (text, rest) = deserialize_into_string(b"", 0).unwrap();
    assert_eq!(text, "");
    assert!(rest.is_empty());
}

#[test]
fn deserialize_into_string_replaces_invalid_bytes() {
    let bytes = [b'a', 0xff, b'b', 0xc3, 0xa9, b'!'];
    let (text, rest) = deserialize_into_string(&bytes, 5).unwrap();
    assert_eq!(text, "a\u{fffd}b\u{e9}");
    assert_eq!(rest, b"!");
}

#[test]
fn deserialize_into_string_reads_valid_utf8_as_it_is() {
    let bytes = "Zoë €uro 𝄞 end".as_bytes();
    let (text, rest) = deserialize_into_string(bytes, bytes.len() as u16 - 4).unwrap();
    assert_eq!(text, "Zoë €uro 𝄞");
    assert_eq!(rest, b" end");
}

#[test]
fn deserialize_into_string_short_buffer() {
    assert_eq!(deserialize_into_string(b"abc", 4).unwrap_err(), ParseError::NotEnoughData);
    assert_eq!(deserialize_into_string(b"", 1).unwrap_err(), ParseError::NotEnoughData);
    assert_eq!(
        deserialize_into_string(&[0u8; 100], u16::MAX).unwrap_err(),
        ParseError::NotEnoughData
    );
}

#[test]
fn deserialize_into_vec_reads_formats() {
    let bytes = [
        1u8, 1, 32, 0, 0, 0, 0, 0, //
        24, 32, 32, 9, 9, 9, 9, 9, //
        0xee, 0xff,
    ];
    let (formats, rest) = deserialize_into_vec::<Format>(&bytes, 2).unwrap();
    assert_eq!(
        formats,
        vec![
            Format { depth: 1, bits_per_pixel: 1, scanline_pad: 32 },
            Format { depth: 24, bits_per_pixel: 32, scanline_pad: 32 },
        ]
    );
    assert_eq!(rest, &[0xee, 0xff]);
}

#[test]
fn deserialize_into_vec_of_no_records() {
    let bytes = [5u8, 6];
    let (formats, rest) = deserialize_into_vec::<Format>(&bytes, 0).unwrap();
    assert!(formats.is_empty());
    assert_eq!(rest, &bytes);
}

#[test]
fn deserialize_into_vec_short_buffer() {
    let bytes = [0u8; 15];
    assert_eq!(
        deserialize_into_vec::<Format>(&bytes, 2).unwrap_err(),
        ParseError::NotEnoughData
    );
    assert_eq!(
        deserialize_into_vec_with::<Format>(&[], 1, ByteOrder::Big).unwrap_err(),
        ParseError::NotEnoughData
    );
}

#[test]
fn deserialize_into_vec_overflow() {
    let bytes = [0u8; 64];
    assert_eq!(
        deserialize_into_vec::<Format>(&bytes, usize::MAX).unwrap_err(),
        ParseError::OverFlow
    );
    assert_eq!(
        deserialize_into_vec::<Format>(&bytes, usize::MAX / 8 + 1).unwrap_err(),
        ParseError::OverFlow
    );
    assert_eq!(
        deserialize_into_vec_with::<Format>(&bytes, usize::MAX / 2, ByteOrder::Little)
            .unwrap_err(),
        ParseError::OverFlow
    );
    // the greatest count whose size still fits is too long for the buffer, not an overflow
    assert_eq!(
        deserialize_into_vec::<Format>(&bytes, usize::MAX / 8).unwrap_err(),
        ParseError::NotEnoughData
    );
}

#[test]
fn format_record_wants_three_bytes() {
    let order = ByteOrder::Little;
    assert_eq!(
        <Format as DeserializeList>::deserialize(&[1, 2], order),
        Err(ParseError::NotEnoughData)
    );
    assert_eq!(
        <Format as DeserializeList>::deserialize(&[1, 2, 3], order),
        Ok(Format { depth: 1, bits_per_pixel: 2, scanline_pad: 3 })
    );
}

#[test]
fn align_to_4_values() {
    assert_eq!(align_to_4(0), 0);
    assert_eq!(align_to_4(1), 3);
    assert_eq!(align_to_4(2), 2);
    assert_eq!(align_to_4(3), 1);
    assert_eq!(align_to_4(4), 0);
    assert_eq!(align_to_4(18), 2);
    assert_eq!(align_to_4(19), 1);
    assert_eq!(align_to_4(20), 0);
    assert_eq!(align_to_4(usize::MAX), 1);
}

#[test]
fn trim_by_padding_skips_up_to_the_boundary() {
    let bytes = [1u8, 2, 3, 4, 5];
    assert_eq!(trim_by_padding(&bytes, 0, 4), &bytes);
    assert_eq!(trim_by_padding(&bytes, 4, 4), &bytes);
    assert_eq!(trim_by_padding(&bytes, 1, 4), &[4, 5]);
    assert_eq!(trim_by_padding(&bytes, 2, 4), &[3, 4, 5]);
    assert_eq!(trim_by_padding(&bytes, 3, 4), &[2, 3, 4, 5]);
    assert_eq!(trim_by_padding(&bytes, 19, 4), &[2, 3, 4, 5]);
    assert_eq!(trim_by_padding(&bytes, 6, 8), &[3, 4, 5]);
    assert_eq!(trim_by_padding(&bytes, 7, 1), &bytes);
    assert_eq!(trim_by_padding(&[], 8, 4), &[] as &[u8]);
}
