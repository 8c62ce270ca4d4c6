//! The setup request as bytes and the server's reply as a value.

use crate::auth::{XAuthEntry, XAuthEntryView};
use crate::byteorder::{u16_bytes, u16_value, u32_value, ByteOrder};
use crate::errors::{ConnectionError, ParseError};
use crate::protocol::{
    lemma_screens_count, spec_screens, BitOrder, ConnSetup, ConnSetupRequest, ConnSetupRequestView,
    ConnSetupView, Format, Screen, PROTOCOL_MAJOR_VERSION, PROTOCOL_MINOR_VERSION,
};
use crate::utils::{
    align_to_4, deserialize_into_string, deserialize_into_vec_with, lemma_records_each,
    lossy_text, padding,
    read_u16, read_u32, spec_deserialize_into_vec, trim_by_padding,
};
use vstd::prelude::*;

verus! {

/// `n` bytes of zero.
pub open spec fn zeros(n: nat) -> Seq<u8> {
    Seq::new(n, |i: int| 0u8)
}

/// The number of bytes of a setup request before the authorization name.
pub const REQUEST_HEADER_SIZE: usize = 12;

/// The bytes of a setup request whose multi-byte fields are written in
/// `order`: the marker, an unused byte, the two versions, the lengths of
/// the authorization name and data, two unused bytes, then the name and
/// the data, each followed by zeros up to a multiple of four bytes,
/// counted from the start of the request.
pub open spec fn spec_serialize(request: ConnSetupRequestView, order: ByteOrder) -> Seq<u8> {
    let name = request.authorization_protocol_name;
    let data = request.authorization_protocol_data;
    let header = seq![request.byte_order, 0u8] + u16_bytes(order, request.protocol_major_version)
        + u16_bytes(order, request.protocol_minor_version) + u16_bytes(order, name.len() as u16)
        + u16_bytes(order, data.len() as u16) + seq![0u8, 0u8];
    let with_name = header + name;
    let name_padded = with_name + zeros(padding(with_name.len(), 4));
    let with_data = name_padded + data;
    with_data + zeros(padding(with_data.len(), 4))
}

/// Padding brings a length up to a multiple of four with fewer than four
/// bytes, and what stood before a multiple of four does not change it.
pub proof fn lemma_padding_aligns(before: nat, length: nat)
    requires
        before % 4 == 0,
    ensures
        padding(before + length, 4) < 4,
        (before + length + padding(before + length, 4)) % 4 == 0,
        padding(before + length, 4) == padding(length, 4),
{
}

/// The length of a serialized request is a multiple of four: the twelve
/// bytes of the header, the name and the data, each padded against the
/// running total.
pub proof fn lemma_serialize_aligned(request: ConnSetupRequestView, order: ByteOrder)
    ensures
        spec_serialize(request, order).len() % 4 == 0,
        spec_serialize(request, order).len() == 12 + request.authorization_protocol_name.len()
            + padding(12 + request.authorization_protocol_name.len(), 4)
            + request.authorization_protocol_data.len() + padding(
            request.authorization_protocol_data.len(),
            4,
        ),
{
    let name = request.authorization_protocol_name;
    let data = request.authorization_protocol_data;
    let header = seq![request.byte_order, 0u8] + u16_bytes(order, request.protocol_major_version)
        + u16_bytes(order, request.protocol_minor_version) + u16_bytes(order, name.len() as u16)
        + u16_bytes(order, data.len() as u16) + seq![0u8, 0u8];
    assert(header.len() == 12);
    let with_name = header + name;
    assert(with_name.len() == 12 + name.len());
    let name_padded = with_name + zeros(padding(with_name.len(), 4));
    lemma_padding_aligns(0, with_name.len());
    assert(name_padded.len() % 4 == 0);
    let with_data = name_padded + data;
    lemma_padding_aligns(name_padded.len(), data.len());
    let whole = with_data + zeros(padding(with_data.len(), 4));
    assert(whole.len() == with_data.len() + padding(data.len(), 4));
    assert(whole == spec_serialize(request, order));
}

/// Appends zeros to `payload` up to the next multiple of four bytes.
fn pad_to_4(payload: &mut Vec<u8>)
    ensures
        final(payload)@ == old(payload)@ + zeros(padding(old(payload)@.len(), 4)),
{
    let ghost before = payload@;
    let missing = align_to_4(payload.len());
    let mut i: usize = 0;
    while i < missing
        invariant
            i <= missing,
            payload@ == before + zeros(i as nat),
        decreases missing - i,
    {
        payload.push(0);
        i += 1;
        proof {
            assert(payload@ =~= before + zeros(i as nat));
        }
    }
}

/// Appends the bytes of `bytes` to `payload`.
fn put_all(payload: &mut Vec<u8>, bytes: &Vec<u8>)
    ensures
        final(payload)@ == old(payload)@ + bytes@,
{
    let ghost before = payload@;
    let mut i: usize = 0;
    proof {
        assert(payload@ =~= before + bytes@.take(0));
    }
    while i < bytes.len()
        invariant
            i <= bytes@.len(),
            payload@ == before + bytes@.take(i as int),
        decreases bytes@.len() - i,
    {
        payload.push(bytes[i]);
        i += 1;
        proof {
            assert(payload@ =~= before + bytes@.take(i as int));
        }
    }
    proof {
        assert(bytes@.take(bytes@.len() as int) =~= bytes@);
    }
}

/// The request that announces the given byte order and carries the
/// authorization name and data of `entry`, for version 11.0 of the
/// protocol.
pub open spec fn spec_request(entry: XAuthEntryView, order: ByteOrder) -> ConnSetupRequestView {
    ConnSetupRequestView {
        byte_order: order.spec_marker(),
        protocol_major_version: PROTOCOL_MAJOR_VERSION,
        protocol_minor_version: PROTOCOL_MINOR_VERSION,
        authorization_protocol_name: entry.authorization_protocol_name,
        authorization_protocol_data: entry.authorization_protocol_data,
    }
}

impl ConnSetupRequest {
    /// The request that announces the given byte order and carries the
    /// credentials of `entry`.
    pub fn new_with(entry: XAuthEntry, order: ByteOrder) -> (request: ConnSetupRequest)
        ensures
            request@ == spec_request(entry@, order),
    {
        ConnSetupRequest {
            byte_order: order.marker(),
            protocol_major_version: PROTOCOL_MAJOR_VERSION,
            protocol_minor_version: PROTOCOL_MINOR_VERSION,
            authorization_protocol_data: entry.authorization_protocol_data,
            authorization_protocol_name: entry.authorization_protocol_name,
        }
    }

    /// The request that announces the byte order of the host and carries
    /// the credentials of `entry`.
    pub fn new(entry: XAuthEntry) -> (request: ConnSetupRequest)
        ensures
            request@ == spec_request(entry@, ByteOrder::Little) || request@ == spec_request(
                entry@,
                ByteOrder::Big,
            ),
    {
        let order = ByteOrder::native();
        Self::new_with(entry, order)
    }

    /// The bytes of this request, with its multi-byte fields written in
    /// `order`.
    pub fn serialize_with(&self, order: ByteOrder) -> (payload: Vec<u8>)
        requires
            self.authorization_protocol_name@.len() <= u16::MAX,
            self.authorization_protocol_data@.len() <= u16::MAX,
        ensures
            payload@ == spec_serialize(self@, order),
            payload@.len() % 4 == 0,
    {
        let mut payload: Vec<u8> = Vec::new();
        payload.push(self.byte_order);
        payload.push(0);
        order.put_u16(&mut payload, self.protocol_major_version);
        order.put_u16(&mut payload, self.protocol_minor_version);
        order.put_u16(&mut payload, self.authorization_protocol_name.len() as u16);
        order.put_u16(&mut payload, self.authorization_protocol_data.len() as u16);
        payload.push(0);
        payload.push(0);
        proof {
            assert(payload@ =~= seq![self.byte_order, 0u8] + u16_bytes(
                order,
                self.protocol_major_version,
            ) + u16_bytes(order, self.protocol_minor_version) + u16_bytes(
                order,
                self.authorization_protocol_name@.len() as u16,
            ) + u16_bytes(order, self.authorization_protocol_data@.len() as u16) + seq![0u8, 0u8]);
        }
        put_all(&mut payload, &self.authorization_protocol_name);
        pad_to_4(&mut payload);
        put_all(&mut payload, &self.authorization_protocol_data);
        pad_to_4(&mut payload);
        proof {
            lemma_serialize_aligned(self@, order);
        }
        payload
    }

    /// The bytes of this request, with its multi-byte fields written in the
    /// byte order of the host.
    pub fn serialize(&self) -> (payload: Vec<u8>)
        requires
            self.authorization_protocol_name@.len() <= u16::MAX,
            self.authorization_protocol_data@.len() <= u16::MAX,
        ensures
            payload@ == spec_serialize(self@, ByteOrder::Little) || payload@ == spec_serialize(
                self@,
                ByteOrder::Big,
            ),
            payload@.len() % 4 == 0,
    {
        let order = ByteOrder::native();
        self.serialize_with(order)
    }
}

/// The number of bytes of an accepting reply before the vendor's name.
pub const SETUP_HEADER_SIZE: usize = 40;

/// The fixed part that an accepting reply starts with.
#[derive(Clone, Copy, Debug, PartialEq, Eq, Structural)]
pub struct SetupHeader {
    pub success: u8,
    pub protocol_major_version: u16,
    pub protocol_minor_version: u16,
    /// The length of what follows the first eight bytes, in units of four
    /// bytes. Decoding goes by the counts and lengths of the sections.
    pub additional_length: u16,
    pub release_number: u32,
    pub resource_id_base: u32,
    pub resource_id_mask: u32,
    pub motion_buffer_size: u32,
    pub vendor_length: u16,
    pub maximum_request_length: u16,
    pub number_of_screens: u8,
    pub number_of_formats: u8,
    pub image_byte_order: u8,
    pub bitmap_bit_order: u8,
    pub bitmap_scanline_unit: u8,
    pub bitmap_scanline_pad: u8,
    pub min_keycode: u8,
    pub max_keycode: u8,
}

/// The header that the first forty bytes of `bytes` hold: the status, an
/// unused byte, the two versions, the additional length, release number,
/// resource id base and mask, motion buffer size, the length of the
/// vendor's name, the greatest request length, the numbers of screens and
/// of formats, image byte order, bitmap bit order, scanline unit and pad,
/// least and greatest key code, and four unused bytes.
pub open spec fn spec_setup_header(bytes: Seq<u8>, order: ByteOrder) -> SetupHeader
    recommends
        bytes.len() >= SETUP_HEADER_SIZE,
{
    SetupHeader {
        success: bytes[0],
        protocol_major_version: u16_value(order, bytes.skip(2)),
        protocol_minor_version: u16_value(order, bytes.skip(4)),
        additional_length: u16_value(order, bytes.skip(6)),
        release_number: u32_value(order, bytes.skip(8)),
        resource_id_base: u32_value(order, bytes.skip(12)),
        resource_id_mask: u32_value(order, bytes.skip(16)),
        motion_buffer_size: u32_value(order, bytes.skip(20)),
        vendor_length: u16_value(order, bytes.skip(24)),
        maximum_request_length: u16_value(order, bytes.skip(26)),
        number_of_screens: bytes[28],
        number_of_formats: bytes[29],
        image_byte_order: bytes[30],
        bitmap_bit_order: bytes[31],
        bitmap_scanline_unit: bytes[32],
        bitmap_scanline_pad: bytes[33],
        min_keycode: bytes[34],
        max_keycode: bytes[35],
    }
}

/// The accepting reply with the given header and, behind the header, the
/// bytes `body`: the vendor's name, padded to a multiple of four bytes,
/// then the formats and the screens. A body that ends early gives
/// `NotEnoughData`; a bit order code that stands for no order gives
/// `Failed`.
pub open spec fn spec_setup_body(header: SetupHeader, body: Seq<u8>, order: ByteOrder) -> Result<
    ConnSetupView,
    ParseError,
> {
    let vendor_length = header.vendor_length as nat;
    let named = vendor_length + padding(vendor_length, 4);
    if body.len() < named {
        Err(ParseError::NotEnoughData)
    } else {
        match BitOrder::spec_from_code(header.bitmap_bit_order) {
            None => Err(ParseError::Failed),
            Some(bitmap_bit_order) => match spec_deserialize_into_vec::<Format>(
                body.skip(named as int),
                header.number_of_formats as nat,
                order,
            ) {
                Err(e) => Err(e),
                Ok((pixmap_formats, rest)) => match spec_screens(
                    rest,
                    header.number_of_screens as nat,
                    order,
                ) {
                    Err(e) => Err(e),
                    Ok((roots, _)) => Ok(
                        ConnSetupView {
                            success: header.success,
                            protocol_major_version: header.protocol_major_version,
                            protocol_minor_version: header.protocol_minor_version,
                            vendor: lossy_text(body.take(vendor_length as int)),
                            release_number: header.release_number,
                            resource_id_base: header.resource_id_base,
                            resource_id_mask: header.resource_id_mask,
                            image_byte_order: header.image_byte_order,
                            bitmap_scanline_unit: header.bitmap_scanline_unit,
                            bitmap_scanline_pad: header.bitmap_scanline_pad,
                            bitmap_bit_order,
                            pixmap_formats,
                            roots,
                            motion_buffer_size: header.motion_buffer_size,
                            maximum_request_length: header.maximum_request_length,
                            min_keycode: header.min_keycode,
                            max_keycode: header.max_keycode,
                        },
                    ),
                },
            },
        }
    }
}

/// The accepting reply that `bytes` holds, with its multi-byte fields read
/// in `order`: `NotEnoughData` where `bytes` is shorter than a header,
/// else what the header and the bytes behind it give.
pub open spec fn spec_conn_setup(bytes: Seq<u8>, order: ByteOrder) -> Result<
    ConnSetupView,
    ParseError,
> {
    if bytes.len() < SETUP_HEADER_SIZE {
        Err(ParseError::NotEnoughData)
    } else {
        spec_setup_body(
            spec_setup_header(bytes, order),
            bytes.skip(SETUP_HEADER_SIZE as int),
            order,
        )
    }
}

/// What a reply means, by its first byte: 0 is a refusal, 1 an accepting
/// reply that has to decode, 2 the demand for further authentication, and
/// anything else, or no byte at all, is no reply of the protocol. A reply
/// that starts with 1 and does not decode counts as a connection that was
/// not established.
pub open spec fn spec_parse_into(bytes: Seq<u8>, order: ByteOrder) -> Result<
    ConnSetupView,
    ConnectionError,
> {
    if bytes.len() == 0 {
        Err(ConnectionError::InvalidResponseFromServer)
    } else if bytes[0] == 0 {
        Err(ConnectionError::ConnectionRefused)
    } else if bytes[0] == 1 {
        match spec_conn_setup(bytes, order) {
            Ok(setup) => Ok(setup),
            Err(_) => Err(ConnectionError::ConnectionNotEstablished),
        }
    } else if bytes[0] == 2 {
        Err(ConnectionError::FurtherAuthenticationRequired)
    } else {
        Err(ConnectionError::InvalidResponseFromServer)
    }
}

/// A decoded reply with the record taken by what it holds.
pub open spec fn setup_view<E>(r: Result<ConnSetup, E>) -> Result<ConnSetupView, E> {
    match r {
        Ok(setup) => Ok(setup@),
        Err(e) => Err(e),
    }
}

impl SetupHeader {
    /// Reads the header at the head of `bytes`.
    pub fn read(bytes: &[u8], order: ByteOrder) -> (header: SetupHeader)
        requires
            bytes@.len() >= SETUP_HEADER_SIZE,
        ensures
            header == spec_setup_header(bytes@, order),
    {
        SetupHeader {
            success: bytes[0],
            protocol_major_version: read_u16(bytes, 2, order),
            protocol_minor_version: read_u16(bytes, 4, order),
            additional_length: read_u16(bytes, 6, order),
            release_number: read_u32(bytes, 8, order),
            resource_id_base: read_u32(bytes, 12, order),
            resource_id_mask: read_u32(bytes, 16, order),
            motion_buffer_size: read_u32(bytes, 20, order),
            vendor_length: read_u16(bytes, 24, order),
            maximum_request_length: read_u16(bytes, 26, order),
            number_of_screens: bytes[28],
            number_of_formats: bytes[29],
            image_byte_order: bytes[30],
            bitmap_bit_order: bytes[31],
            bitmap_scanline_unit: bytes[32],
            bitmap_scanline_pad: bytes[33],
            min_keycode: bytes[34],
            max_keycode: bytes[35],
        }
    }
}

impl ConnSetup {
    /// Decodes an accepting reply whose multi-byte fields are read in
    /// `order`.
    pub fn from_bytes_with(bytes: &[u8], order: ByteOrder) -> (r: Result<ConnSetup, ParseError>)
        ensures
            setup_view(r) == spec_conn_setup(bytes@, order),
    {
        if bytes.len() < SETUP_HEADER_SIZE {
            return Err(ParseError::NotEnoughData);
        }
        let header = SetupHeader::read(bytes, order);
        let (_, body) = bytes.split_at(SETUP_HEADER_SIZE);
        proof {
            assert(body@ =~= bytes@.skip(SETUP_HEADER_SIZE as int));
        }
        Self::from_header(header, body, order)
    }

    /// Decodes what follows the header of an accepting reply.
    pub fn from_header(header: SetupHeader, body: &[u8], order: ByteOrder) -> (r: Result<
        ConnSetup,
        ParseError,
    >)
        ensures
            setup_view(r) == spec_setup_body(header, body@, order),
    {
        let vendor_length = header.vendor_length;
        let skip = align_to_4(vendor_length as usize);
        if body.len() < vendor_length as usize + skip {
            return Err(ParseError::NotEnoughData);
        }
        let bitmap_bit_order = match BitOrder::from_code(header.bitmap_bit_order) {
            Some(bit_order) => bit_order,
            None => {
                return Err(ParseError::Failed);
            },
        };
        let (vendor, rest) = match deserialize_into_string(body, vendor_length) {
            Ok(read) => read,
            Err(e) => {
                return Err(e);
            },
        };
        let rest = trim_by_padding(rest, vendor_length, 4);
        proof {
            assert(rest@ =~= body@.skip(vendor_length + skip));
        }
        let (pixmap_formats, rest) = match deserialize_into_vec_with::<Format>(
            rest,
            header.number_of_formats as usize,
            order,
        ) {
            Ok(read) => read,
            Err(e) => {
                return Err(e);
            },
        };
        let (roots, _) = match Screen::parse_list(rest, header.number_of_screens as usize, order) {
            Ok(read) => read,
            Err(e) => {
                return Err(e);
            },
        };
        Ok(
            ConnSetup {
                success: header.success,
                protocol_major_version: header.protocol_major_version,
                protocol_minor_version: header.protocol_minor_version,
                vendor,
                release_number: header.release_number,
                resource_id_base: header.resource_id_base,
                resource_id_mask: header.resource_id_mask,
                image_byte_order: header.image_byte_order,
                bitmap_scanline_unit: header.bitmap_scanline_unit,
                bitmap_scanline_pad: header.bitmap_scanline_pad,
                bitmap_bit_order,
                pixmap_formats,
                roots,
                motion_buffer_size: header.motion_buffer_size,
                maximum_request_length: header.maximum_request_length,
                min_keycode: header.min_keycode,
                max_keycode: header.max_keycode,
            },
        )
    }

    /// Decodes an accepting reply whose multi-byte fields are read in the
    /// byte order of the host.
    pub fn from_bytes(bytes: &[u8]) -> (r: Result<ConnSetup, ParseError>)
        ensures
            setup_view(r) == spec_conn_setup(bytes@, ByteOrder::Little) || setup_view(r)
                == spec_conn_setup(bytes@, ByteOrder::Big),
            bytes@.len() < SETUP_HEADER_SIZE ==> r is Err && r->Err_0 == ParseError::NotEnoughData,
    {
        let order = ByteOrder::native();
        Self::from_bytes_with(bytes, order)
    }

    /// Reads a reply of the server by its first byte, and decodes an
    /// accepting one with its multi-byte fields read in `order`.
    pub fn parse_into_with(bytes: &[u8], order: ByteOrder) -> (r: Result<
        ConnSetup,
        ConnectionError,
    >)
        ensures
            setup_view(r) == spec_parse_into(bytes@, order),
    {
        if bytes.len() == 0 {
            return Err(ConnectionError::InvalidResponseFromServer);
        }
        match ConnSetupResponse::decode_with(bytes, order) {
            Ok(response) => response.into_result(),
            Err(e) => Err(ConnectionError::from(e)),
        }
    }

    /// Reads a reply of the server by its first byte, and decodes an
    /// accepting one with its multi-byte fields read in the byte order of
    /// the host.
    pub fn parse_into(bytes: &[u8]) -> (r: Result<ConnSetup, ConnectionError>)
        ensures
            setup_view(r) == spec_parse_into(bytes@, ByteOrder::Little) || setup_view(r)
                == spec_parse_into(bytes@, ByteOrder::Big),
            bytes@.len() > 0 && bytes@[0] == 0 ==> r is Err && r->Err_0
                == ConnectionError::ConnectionRefused,
            bytes@.len() > 0 && bytes@[0] == 2 ==> r is Err && r->Err_0
                == ConnectionError::FurtherAuthenticationRequired,
            bytes@.len() == 0 || bytes@[0] > 2 ==> r is Err && r->Err_0
                == ConnectionError::InvalidResponseFromServer,
    {
        let order = ByteOrder::native();
        Self::parse_into_with(bytes, order)
    }
}

/// A reply of the server to a setup request, told apart by its first byte.
#[derive(Debug)]
pub enum ConnSetupResponse {
    /// The server refuses the connection.
    Refused,
    /// The server accepts the connection and describes itself.
    Established(ConnSetup),
    /// The server asks for further authentication.
    AuthRequired,
    /// The reply starts with a status that the protocol does not know.
    Invalid(u8),
}

/// What a [`ConnSetupResponse`] holds.
pub ghost enum ConnSetupResponseView {
    Refused,
    Established(ConnSetupView),
    AuthRequired,
    Invalid(u8),
}

impl View for ConnSetupResponse {
    type V = ConnSetupResponseView;

    open spec fn view(&self) -> ConnSetupResponseView {
        match self {
            ConnSetupResponse::Refused => ConnSetupResponseView::Refused,
            ConnSetupResponse::Established(setup) => ConnSetupResponseView::Established(setup@),
            ConnSetupResponse::AuthRequired => ConnSetupResponseView::AuthRequired,
            ConnSetupResponse::Invalid(status) => ConnSetupResponseView::Invalid(*status),
        }
    }
}

/// The reply that `bytes` holds: by the first byte a refusal (0), an
/// accepting reply (1), which has to decode, a demand for further
/// authentication (2), or an unknown status. No byte at all gives
/// `NotEnoughData`.
pub open spec fn spec_response(bytes: Seq<u8>, order: ByteOrder) -> Result<
    ConnSetupResponseView,
    ParseError,
> {
    if bytes.len() == 0 {
        Err(ParseError::NotEnoughData)
    } else if bytes[0] == 0 {
        Ok(ConnSetupResponseView::Refused)
    } else if bytes[0] == 1 {
        match spec_conn_setup(bytes, order) {
            Ok(setup) => Ok(ConnSetupResponseView::Established(setup)),
            Err(e) => Err(e),
        }
    } else if bytes[0] == 2 {
        Ok(ConnSetupResponseView::AuthRequired)
    } else {
        Ok(ConnSetupResponseView::Invalid(bytes[0]))
    }
}

/// What a reply comes to for the caller: the server's description of
/// itself, or the failure that the reply stands for.
pub open spec fn spec_into_result(response: ConnSetupResponseView) -> Result<
    ConnSetupView,
    ConnectionError,
> {
    match response {
        ConnSetupResponseView::Refused => Err(ConnectionError::ConnectionRefused),
        ConnSetupResponseView::Established(setup) => Ok(setup),
        ConnSetupResponseView::AuthRequired => Err(ConnectionError::FurtherAuthenticationRequired),
        ConnSetupResponseView::Invalid(_) => Err(ConnectionError::InvalidResponseFromServer),
    }
}

/// A reply is told apart by its first byte alone: 0 is a refusal, 2 a
/// demand for further authentication, 1 an acceptance where the record
/// behind it decodes, and every other byte an unknown status.
pub proof fn lemma_status_dispatch(bytes: Seq<u8>, order: ByteOrder)
    requires
        bytes.len() > 0,
    ensures
        bytes[0] == 0 ==> spec_response(bytes, order) == Ok::<ConnSetupResponseView, ParseError>(
            ConnSetupResponseView::Refused,
        ),
        bytes[0] == 1 && spec_conn_setup(bytes, order) is Ok ==> spec_response(bytes, order)
            == Ok::<ConnSetupResponseView, ParseError>(
            ConnSetupResponseView::Established(spec_conn_setup(bytes, order)->Ok_0),
        ),
        bytes[0] == 1 && spec_conn_setup(bytes, order) is Err ==> spec_response(bytes, order)
            is Err,
        bytes[0] == 2 ==> spec_response(bytes, order) == Ok::<ConnSetupResponseView, ParseError>(
            ConnSetupResponseView::AuthRequired,
        ),
        bytes[0] > 2 ==> spec_response(bytes, order) == Ok::<ConnSetupResponseView, ParseError>(
            ConnSetupResponseView::Invalid(bytes[0]),
        ),
        spec_response(bytes, order) is Ok ==> spec_parse_into(bytes, order) == spec_into_result(
            spec_response(bytes, order)->Ok_0,
        ),
{
}

/// An accepting reply that decodes holds as many formats and as many
/// screens as its header announces.
pub proof fn lemma_setup_counts(header: SetupHeader, body: Seq<u8>, order: ByteOrder)
    requires
        spec_setup_body(header, body, order) is Ok,
    ensures
        spec_setup_body(header, body, order)->Ok_0.pixmap_formats.len()
            == header.number_of_formats,
        spec_setup_body(header, body, order)->Ok_0.roots.len() == header.number_of_screens,
{
    let named = header.vendor_length as nat + padding(header.vendor_length as nat, 4);
    let formats = body.skip(named as int);
    lemma_records_each::<Format>(formats, header.number_of_formats as nat, order);
    let behind = spec_deserialize_into_vec::<Format>(
        formats,
        header.number_of_formats as nat,
        order,
    )->Ok_0.1;
    lemma_screens_count(behind, header.number_of_screens as nat, order);
}

/// A decoded reply taken by what it holds.
pub open spec fn response_view(r: Result<ConnSetupResponse, ParseError>) -> Result<
    ConnSetupResponseView,
    ParseError,
> {
    match r {
        Ok(response) => Ok(response@),
        Err(e) => Err(e),
    }
}

impl ConnSetupResponse {
    /// Decodes a reply of the server, with the multi-byte fields of an
    /// accepting reply read in `order`.
    pub fn decode_with(bytes: &[u8], order: ByteOrder) -> (r: Result<ConnSetupResponse, ParseError>)
        ensures
            response_view(r) == spec_response(bytes@, order),
    {
        if bytes.len() == 0 {
            return Err(ParseError::NotEnoughData);
        }
        let status = bytes[0];
        if status == 0 {
            Ok(ConnSetupResponse::Refused)
        } else if status == 1 {
            match ConnSetup::from_bytes_with(bytes, order) {
                Ok(setup) => Ok(ConnSetupResponse::Established(setup)),
                Err(e) => Err(e),
            }
        } else if status == 2 {
            Ok(ConnSetupResponse::AuthRequired)
        } else {
            Ok(ConnSetupResponse::Invalid(status))
        }
    }

    /// Decodes a reply of the server, with the multi-byte fields of an
    /// accepting reply read in the byte order of the host.
    pub fn decode(bytes: &[u8]) -> (r: Result<ConnSetupResponse, ParseError>)
        ensures
            response_view(r) == spec_response(bytes@, ByteOrder::Little) || response_view(r)
                == spec_response(bytes@, ByteOrder::Big),
            bytes@.len() == 0 ==> response_view(r) == Err::<ConnSetupResponseView, ParseError>(
                ParseError::NotEnoughData,
            ),
            bytes@.len() > 0 && bytes@[0] == 0 ==> response_view(r) == Ok::<
                ConnSetupResponseView,
                ParseError,
            >(ConnSetupResponseView::Refused),
            bytes@.len() > 0 && bytes@[0] == 1 && r is Ok ==> r->Ok_0@ is Established,
            bytes@.len() > 0 && bytes@[0] == 2 ==> response_view(r) == Ok::<
                ConnSetupResponseView,
                ParseError,
            >(ConnSetupResponseView::AuthRequired),
            bytes@.len() > 0 && bytes@[0] > 2 ==> response_view(r) == Ok::<
                ConnSetupResponseView,
                ParseError,
            >(ConnSetupResponseView::Invalid(bytes@[0])),
    {
        let order = ByteOrder::native();
        Self::decode_with(bytes, order)
    }

    /// The server's description of itself, or the failure that this reply
    /// stands for.
    pub fn into_result(self) -> (r: Result<ConnSetup, ConnectionError>)
        ensures
            setup_view(r) == spec_into_result(self@),
    {
        match self {
            ConnSetupResponse::Refused => Err(ConnectionError::ConnectionRefused),
            ConnSetupResponse::Established(setup) => Ok(setup),
            ConnSetupResponse::AuthRequired => Err(ConnectionError::FurtherAuthenticationRequired),
            ConnSetupResponse::Invalid(_) => Err(ConnectionError::InvalidResponseFromServer),
        }
    }
}

} // verus!
