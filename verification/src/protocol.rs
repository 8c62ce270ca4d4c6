//! The records of the connection setup exchange.

use crate::byteorder::{u16_value, u32_value, ByteOrder};
use crate::errors::ParseError;
use crate::utils::{
    deserialize_into_vec_with, read_u16, read_u32, spec_deserialize_into_vec, DeserializeList,
};
use vstd::prelude::*;

verus! {

/// The major version of the protocol that this client speaks.
pub const PROTOCOL_MAJOR_VERSION: u16 = 11;

/// The minor version of the protocol that this client speaks.
pub const PROTOCOL_MINOR_VERSION: u16 = 0;

/// Identifier for a [`VisualType`].
pub type VisualId = u32;

/// A colormap consists of a set of entries defining color values.
pub type ColorMap = u32;

/// The numerical code of a key of the keyboard.
pub type KeyCode = u8;

/// The protocol or address family of a credential.
pub type Family = u16;

/// Order of bits within the bytes of a bitmap image.
#[derive(Clone, Copy, Debug, PartialEq, Eq, Structural)]
pub enum BitOrder {
    LeastSignificant,
    MostSignificant,
}

impl BitOrder {
    /// The bit order that a wire code stands for: 0 or 1.
    pub open spec fn spec_from_code(code: u8) -> Option<BitOrder> {
        if code == 0 {
            Some(BitOrder::LeastSignificant)
        } else if code == 1 {
            Some(BitOrder::MostSignificant)
        } else {
            None
        }
    }

    /// The bit order that a wire code stands for: 0 or 1.
    pub fn from_code(code: u8) -> (r: Option<BitOrder>)
        ensures
            r == Self::spec_from_code(code),
    {
        if code == 0 {
            Some(BitOrder::LeastSignificant)
        } else if code == 1 {
            Some(BitOrder::MostSignificant)
        } else {
            None
        }
    }
}

/// A pixmap format that the server supports.
#[derive(Clone, Copy, Debug, PartialEq, Eq, Structural)]
pub struct Format {
    pub depth: u8,
    pub bits_per_pixel: u8,
    pub scanline_pad: u8,
}

/// Each format record is three bytes of data and five unused bytes.
impl DeserializeList for Format {
    open spec fn record_size() -> nat {
        8
    }

    open spec fn record(bytes: Seq<u8>, order: ByteOrder) -> Result<Format, ParseError> {
        if bytes.len() < 3 {
            Err(ParseError::NotEnoughData)
        } else {
            Ok(Format { depth: bytes[0], bits_per_pixel: bytes[1], scanline_pad: bytes[2] })
        }
    }

    fn deserialize(bytes: &[u8], order: ByteOrder) -> (r: Result<Format, ParseError>) {
        if bytes.len() < 3 {
            return Err(ParseError::NotEnoughData);
        }
        Ok(Format { depth: bytes[0], bits_per_pixel: bytes[1], scanline_pad: bytes[2] })
    }

    fn size() -> (n: usize) {
        8
    }
}

/// Unique identifier of a resource of the server, such as a window, a
/// pixmap, a font or a colormap.
#[derive(Clone, Copy, Debug, PartialEq, Eq, Structural)]
pub struct XId(pub u32);

/// Advice to the server on when to keep the contents of obscured regions.
#[derive(Clone, Copy, Debug, PartialEq, Eq, Structural)]
pub enum BackingStore {
    Never,
    WhenMapped,
    Always,
}

impl BackingStore {
    /// The policy that a wire code stands for: 0, 1 or 2.
    pub open spec fn spec_from_code(code: u8) -> Option<BackingStore> {
        if code == 0 {
            Some(BackingStore::Never)
        } else if code == 1 {
            Some(BackingStore::WhenMapped)
        } else if code == 2 {
            Some(BackingStore::Always)
        } else {
            None
        }
    }

    /// The policy that a wire code stands for: 0, 1 or 2.
    pub fn from_code(code: u8) -> (r: Option<BackingStore>)
        ensures
            r == Self::spec_from_code(code),
    {
        if code == 0 {
            Some(BackingStore::Never)
        } else if code == 1 {
            Some(BackingStore::WhenMapped)
        } else if code == 2 {
            Some(BackingStore::Always)
        } else {
            None
        }
    }
}

/// The class of a visual, as its wire code. The codes that the protocol
/// knows are the constants of this type.
#[derive(Clone, Copy, Debug, PartialEq, Eq, Structural)]
pub struct VisualClass(pub u8);

impl VisualClass {
    pub const STATIC_GRAY: u8 = 0;

    pub const STATIC_COLOR: u8 = 1;

    pub const TRUE_COLOR: u8 = 2;

    pub const GRAY_SCALE: u8 = 3;

    pub const PSEUDO_COLOR: u8 = 4;

    pub const DIRECT_COLOR: u8 = 5;
}

/// The format of the pixel data in a window or an image.
#[derive(Clone, Copy, Debug, PartialEq, Eq, Structural)]
pub struct VisualType {
    pub visual_id: VisualId,
    pub class: VisualClass,
    pub red_mask: u32,
    pub green_mask: u32,
    pub blue_mask: u32,
    pub bits_per_rgb_value: u8,
    pub colormap_entries: u16,
}

/// Each visual record is the visual's id, its class, the bits per RGB
/// value, the number of colormap entries, the three masks and four unused
/// bytes.
impl DeserializeList for VisualType {
    open spec fn record_size() -> nat {
        24
    }

    open spec fn record(bytes: Seq<u8>, order: ByteOrder) -> Result<VisualType, ParseError> {
        if bytes.len() < 20 {
            Err(ParseError::NotEnoughData)
        } else {
            Ok(
                VisualType {
                    visual_id: u32_value(order, bytes),
                    class: VisualClass(bytes[4]),
                    bits_per_rgb_value: bytes[5],
                    colormap_entries: u16_value(order, bytes.skip(6)),
                    red_mask: u32_value(order, bytes.skip(8)),
                    green_mask: u32_value(order, bytes.skip(12)),
                    blue_mask: u32_value(order, bytes.skip(16)),
                },
            )
        }
    }

    fn deserialize(bytes: &[u8], order: ByteOrder) -> (r: Result<VisualType, ParseError>) {
        if bytes.len() < 20 {
            return Err(ParseError::NotEnoughData);
        }
        proof {
            assert(bytes@.skip(0) =~= bytes@);
        }
        Ok(
            VisualType {
                visual_id: read_u32(bytes, 0, order),
                class: VisualClass(bytes[4]),
                bits_per_rgb_value: bytes[5],
                colormap_entries: read_u16(bytes, 6, order),
                red_mask: read_u32(bytes, 8, order),
                green_mask: read_u32(bytes, 12, order),
                blue_mask: read_u32(bytes, 16, order),
            },
        )
    }

    fn size() -> (n: usize) {
        24
    }
}

/// A color depth that a screen supports, with the visuals of that depth.
#[derive(Debug)]
pub struct Depth {
    pub depth: u8,
    pub visuals: Vec<VisualType>,
}

/// What a [`Depth`] holds.
pub ghost struct DepthView {
    pub depth: u8,
    pub visuals: Seq<VisualType>,
}

impl View for Depth {
    type V = DepthView;

    open spec fn view(&self) -> DepthView {
        DepthView { depth: self.depth, visuals: self.visuals@ }
    }
}

/// What each of the given depths holds.
pub open spec fn depth_views(depths: Seq<Depth>) -> Seq<DepthView> {
    Seq::new(depths.len(), |i: int| depths[i]@)
}

/// The result `r` with `front` put before its records.
pub open spec fn after<T>(front: Seq<T>, r: Result<(Seq<T>, Seq<u8>), ParseError>) -> Result<
    (Seq<T>, Seq<u8>),
    ParseError,
> {
    match r {
        Ok((items, rest)) => Ok((front + items, rest)),
        Err(e) => Err(e),
    }
}

/// The number of bytes before the visuals of a depth record.
pub const DEPTH_HEADER_SIZE: usize = 8;

/// The depth record at the head of `bytes` and the bytes behind it: the
/// depth, an unused byte, the number of visuals in two bytes, four unused
/// bytes, then the visuals.
pub open spec fn spec_depth(bytes: Seq<u8>, order: ByteOrder) -> Result<
    (DepthView, Seq<u8>),
    ParseError,
> {
    if bytes.len() < DEPTH_HEADER_SIZE {
        Err(ParseError::NotEnoughData)
    } else {
        match spec_deserialize_into_vec::<VisualType>(
            bytes.skip(DEPTH_HEADER_SIZE as int),
            u16_value(order, bytes.skip(2)) as nat,
            order,
        ) {
            Err(e) => Err(e),
            Ok((visuals, rest)) => Ok((DepthView { depth: bytes[0], visuals }, rest)),
        }
    }
}

/// The `n` depth records at the head of `bytes`, one behind the other, and
/// the bytes behind the last.
pub open spec fn spec_depths(bytes: Seq<u8>, n: nat, order: ByteOrder) -> Result<
    (Seq<DepthView>, Seq<u8>),
    ParseError,
>
    decreases n,
{
    if n == 0 {
        Ok((Seq::empty(), bytes))
    } else {
        match spec_depth(bytes, order) {
            Err(e) => Err(e),
            Ok((first, rest)) => after(seq![first], spec_depths(rest, (n - 1) as nat, order)),
        }
    }
}

/// A list of depths that decodes holds as many depths as were asked for.
pub proof fn lemma_depths_count(bytes: Seq<u8>, n: nat, order: ByteOrder)
    requires
        spec_depths(bytes, n, order) is Ok,
    ensures
        spec_depths(bytes, n, order)->Ok_0.0.len() == n,
    decreases n,
{
    if n > 0 {
        lemma_depths_count(spec_depth(bytes, order)->Ok_0.1, (n - 1) as nat, order);
    }
}

impl Depth {
    /// Decodes the depth record at the head of `bytes` and returns it with
    /// the rest of the slice.
    pub fn parse<'a>(bytes: &'a [u8], order: ByteOrder) -> (r: Result<(Depth, &'a [u8]), ParseError>)
        ensures
            match r {
                Ok((depth, rest)) => spec_depth(bytes@, order) == Ok::<
                    (DepthView, Seq<u8>),
                    ParseError,
                >((depth@, rest@)),
                Err(e) => spec_depth(bytes@, order) == Err::<(DepthView, Seq<u8>), ParseError>(e),
            },
    {
        if bytes.len() < DEPTH_HEADER_SIZE {
            return Err(ParseError::NotEnoughData);
        }
        let depth = bytes[0];
        let count = read_u16(bytes, 2, order);
        let (_, body) = bytes.split_at(DEPTH_HEADER_SIZE);
        proof {
            assert(body@ =~= bytes@.skip(DEPTH_HEADER_SIZE as int));
        }
        match deserialize_into_vec_with::<VisualType>(body, count as usize, order) {
            Ok((visuals, rest)) => Ok((Depth { depth, visuals }, rest)),
            Err(e) => Err(e),
        }
    }

    /// Decodes `n` depth records from the head of `bytes` and returns them
    /// with the rest of the slice.
    pub fn parse_list<'a>(bytes: &'a [u8], n: usize, order: ByteOrder) -> (r: Result<
        (Vec<Depth>, &'a [u8]),
        ParseError,
    >)
        ensures
            match r {
                Ok((depths, rest)) => spec_depths(bytes@, n as nat, order) == Ok::<
                    (Seq<DepthView>, Seq<u8>),
                    ParseError,
                >((depth_views(depths@), rest@)),
                Err(e) => spec_depths(bytes@, n as nat, order) == Err::<
                    (Seq<DepthView>, Seq<u8>),
                    ParseError,
                >(e),
            },
    {
        let mut depths: Vec<Depth> = Vec::new();
        let mut rest = bytes;
        let mut i: usize = 0;
        proof {
            assert(depth_views(depths@) + spec_depths(bytes@, n as nat, order)->Ok_0.0
                =~= spec_depths(bytes@, n as nat, order)->Ok_0.0);
        }
        while i < n
            invariant
                i <= n,
                spec_depths(bytes@, n as nat, order) == after(
                    depth_views(depths@),
                    spec_depths(rest@, (n - i) as nat, order),
                ),
            decreases n - i,
        {
            let ghost before = depth_views(depths@);
            match Depth::parse(rest, order) {
                Ok((depth, behind)) => {
                    proof {
                        let tail = spec_depths(behind@, (n - i - 1) as nat, order);
                        if tail is Ok {
                            assert(before + (seq![depth@] + tail->Ok_0.0) =~= before.push(depth@)
                                + tail->Ok_0.0);
                        }
                    }
                    depths.push(depth);
                    proof {
                        assert(depth_views(depths@) =~= before.push(depth@));
                    }
                    rest = behind;
                },
                Err(e) => {
                    return Err(e);
                },
            }
            i += 1;
        }
        proof {
            assert(depth_views(depths@) + Seq::<DepthView>::empty() =~= depth_views(depths@));
        }
        Ok((depths, rest))
    }
}

/// A screen of the display: a physical monitor on which windows are shown.
#[derive(Debug)]
pub struct Screen {
    /// Id of the root window.
    pub root: XId,
    /// Width of the screen in pixels.
    pub width_in_px: u16,
    /// Height of the screen in pixels.
    pub height_in_px: u16,
    /// Width of the screen in millimeters.
    pub width_in_mm: u16,
    /// Height of the screen in millimeters.
    pub height_in_mm: u16,
    /// The color depths that the screen supports.
    pub allowed_depths: Vec<Depth>,
    /// Color depth of the root window.
    pub root_depth: u8,
    /// Id of the visual of the root window.
    pub root_visual: VisualId,
    /// Default colormap of the screen.
    pub default_colormap: ColorMap,
    /// The pixel value that shows as white.
    pub white_pixel: u32,
    /// The pixel value that shows as black.
    pub black_pixel: u32,
    /// The least number of colormaps that can be installed at once.
    pub min_installed_maps: u16,
    /// The greatest number of colormaps that can be installed at once.
    pub max_installed_maps: u16,
    /// When the server keeps the contents of obscured regions.
    pub backing_stores: BackingStore,
    /// Whether the server can save and restore what a window covers.
    pub save_unders: bool,
    /// The input events that the root window reports.
    pub current_input_masks: u32,
}

/// What a [`Screen`] holds.
pub ghost struct ScreenView {
    pub root: XId,
    pub width_in_px: u16,
    pub height_in_px: u16,
    pub width_in_mm: u16,
    pub height_in_mm: u16,
    pub allowed_depths: Seq<DepthView>,
    pub root_depth: u8,
    pub root_visual: VisualId,
    pub default_colormap: ColorMap,
    pub white_pixel: u32,
    pub black_pixel: u32,
    pub min_installed_maps: u16,
    pub max_installed_maps: u16,
    pub backing_stores: BackingStore,
    pub save_unders: bool,
    pub current_input_masks: u32,
}

impl View for Screen {
    type V = ScreenView;

    open spec fn view(&self) -> ScreenView {
        ScreenView {
            root: self.root,
            width_in_px: self.width_in_px,
            height_in_px: self.height_in_px,
            width_in_mm: self.width_in_mm,
            height_in_mm: self.height_in_mm,
            allowed_depths: depth_views(self.allowed_depths@),
            root_depth: self.root_depth,
            root_visual: self.root_visual,
            default_colormap: self.default_colormap,
            white_pixel: self.white_pixel,
            black_pixel: self.black_pixel,
            min_installed_maps: self.min_installed_maps,
            max_installed_maps: self.max_installed_maps,
            backing_stores: self.backing_stores,
            save_unders: self.save_unders,
            current_input_masks: self.current_input_masks,
        }
    }
}

/// What each of the given screens holds.
pub open spec fn screen_views(screens: Seq<Screen>) -> Seq<ScreenView> {
    Seq::new(screens.len(), |i: int| screens[i]@)
}

/// The number of bytes before the depths of a screen record.
pub const SCREEN_HEADER_SIZE: usize = 40;

/// The screen record at the head of `bytes` and the bytes behind it.
///
/// The record starts with five 32-bit fields (root window, default
/// colormap, white pixel, black pixel, input masks), six 16-bit fields
/// (width and height in pixels, width and height in millimeters, least and
/// greatest number of installed colormaps), the 32-bit root visual, and
/// four bytes: backing-store policy, save-unders flag, root depth and the
/// number of depths. The depths follow. A backing-store code that stands
/// for no policy gives `Failed`.
pub open spec fn spec_screen(bytes: Seq<u8>, order: ByteOrder) -> Result<
    (ScreenView, Seq<u8>),
    ParseError,
> {
    if bytes.len() < SCREEN_HEADER_SIZE {
        Err(ParseError::NotEnoughData)
    } else {
        match BackingStore::spec_from_code(bytes[36]) {
            None => Err(ParseError::Failed),
            Some(backing_stores) => match spec_depths(
                bytes.skip(SCREEN_HEADER_SIZE as int),
                bytes[39] as nat,
                order,
            ) {
                Err(e) => Err(e),
                Ok((allowed_depths, rest)) => Ok(
                    (
                        ScreenView {
                            root: XId(u32_value(order, bytes)),
                            default_colormap: u32_value(order, bytes.skip(4)),
                            white_pixel: u32_value(order, bytes.skip(8)),
                            black_pixel: u32_value(order, bytes.skip(12)),
                            current_input_masks: u32_value(order, bytes.skip(16)),
                            width_in_px: u16_value(order, bytes.skip(20)),
                            height_in_px: u16_value(order, bytes.skip(22)),
                            width_in_mm: u16_value(order, bytes.skip(24)),
                            height_in_mm: u16_value(order, bytes.skip(26)),
                            min_installed_maps: u16_value(order, bytes.skip(28)),
                            max_installed_maps: u16_value(order, bytes.skip(30)),
                            root_visual: u32_value(order, bytes.skip(32)),
                            backing_stores,
                            save_unders: bytes[37] != 0,
                            root_depth: bytes[38],
                            allowed_depths,
                        },
                        rest,
                    ),
                ),
            },
        }
    }
}

/// The `n` screen records at the head of `bytes`, one behind the other, and
/// the bytes behind the last.
pub open spec fn spec_screens(bytes: Seq<u8>, n: nat, order: ByteOrder) -> Result<
    (Seq<ScreenView>, Seq<u8>),
    ParseError,
>
    decreases n,
{
    if n == 0 {
        Ok((Seq::empty(), bytes))
    } else {
        match spec_screen(bytes, order) {
            Err(e) => Err(e),
            Ok((first, rest)) => after(seq![first], spec_screens(rest, (n - 1) as nat, order)),
        }
    }
}

/// A list of screens that decodes holds as many screens as were asked for.
pub proof fn lemma_screens_count(bytes: Seq<u8>, n: nat, order: ByteOrder)
    requires
        spec_screens(bytes, n, order) is Ok,
    ensures
        spec_screens(bytes, n, order)->Ok_0.0.len() == n,
    decreases n,
{
    if n > 0 {
        lemma_screens_count(spec_screen(bytes, order)->Ok_0.1, (n - 1) as nat, order);
    }
}

/// A screen that decodes holds as many depths as its record announces.
pub proof fn lemma_screen_depths_count(bytes: Seq<u8>, order: ByteOrder)
    requires
        spec_screen(bytes, order) is Ok,
    ensures
        spec_screen(bytes, order)->Ok_0.0.allowed_depths.len() == bytes[39],
{
    lemma_depths_count(bytes.skip(SCREEN_HEADER_SIZE as int), bytes[39] as nat, order);
}

impl Screen {
    /// Decodes the screen record at the head of `bytes` and returns it with
    /// the rest of the slice.
    pub fn parse<'a>(bytes: &'a [u8], order: ByteOrder) -> (r: Result<
        (Screen, &'a [u8]),
        ParseError,
    >)
        ensures
            match r {
                Ok((screen, rest)) => spec_screen(bytes@, order) == Ok::<
                    (ScreenView, Seq<u8>),
                    ParseError,
                >((screen@, rest@)),
                Err(e) => spec_screen(bytes@, order) == Err::<(ScreenView, Seq<u8>), ParseError>(e),
            },
    {
        if bytes.len() < SCREEN_HEADER_SIZE {
            return Err(ParseError::NotEnoughData);
        }
        let backing_stores = match BackingStore::from_code(bytes[36]) {
            Some(policy) => policy,
            None => {
                return Err(ParseError::Failed);
            },
        };
        let (_, body) = bytes.split_at(SCREEN_HEADER_SIZE);
        proof {
            assert(body@ =~= bytes@.skip(SCREEN_HEADER_SIZE as int));
            assert(bytes@.skip(0) =~= bytes@);
        }
        let (allowed_depths, rest) = match Depth::parse_list(body, bytes[39] as usize, order) {
            Ok(parsed) => parsed,
            Err(e) => {
                return Err(e);
            },
        };
        let screen = Screen {
            root: XId(read_u32(bytes, 0, order)),
            default_colormap: read_u32(bytes, 4, order),
            white_pixel: read_u32(bytes, 8, order),
            black_pixel: read_u32(bytes, 12, order),
            current_input_masks: read_u32(bytes, 16, order),
            width_in_px: read_u16(bytes, 20, order),
            height_in_px: read_u16(bytes, 22, order),
            width_in_mm: read_u16(bytes, 24, order),
            height_in_mm: read_u16(bytes, 26, order),
            min_installed_maps: read_u16(bytes, 28, order),
            max_installed_maps: read_u16(bytes, 30, order),
            root_visual: read_u32(bytes, 32, order),
            backing_stores,
            save_unders: bytes[37] != 0,
            root_depth: bytes[38],
            allowed_depths,
        };
        Ok((screen, rest))
    }

    /// Decodes `n` screen records from the head of `bytes` and returns them
    /// with the rest of the slice.
    pub fn parse_list<'a>(bytes: &'a [u8], n: usize, order: ByteOrder) -> (r: Result<
        (Vec<Screen>, &'a [u8]),
        ParseError,
    >)
        ensures
            match r {
                Ok((screens, rest)) => spec_screens(bytes@, n as nat, order) == Ok::<
                    (Seq<ScreenView>, Seq<u8>),
                    ParseError,
                >((screen_views(screens@), rest@)),
                Err(e) => spec_screens(bytes@, n as nat, order) == Err::<
                    (Seq<ScreenView>, Seq<u8>),
                    ParseError,
                >(e),
            },
    {
        let mut screens: Vec<Screen> = Vec::new();
        let mut rest = bytes;
        let mut i: usize = 0;
        proof {
            assert(screen_views(screens@) + spec_screens(bytes@, n as nat, order)->Ok_0.0
                =~= spec_screens(bytes@, n as nat, order)->Ok_0.0);
        }
        while i < n
            invariant
                i <= n,
                spec_screens(bytes@, n as nat, order) == after(
                    screen_views(screens@),
                    spec_screens(rest@, (n - i) as nat, order),
                ),
            decreases n - i,
        {
            let ghost before = screen_views(screens@);
            match Screen::parse(rest, order) {
                Ok((screen, behind)) => {
                    proof {
                        let tail = spec_screens(behind@, (n - i - 1) as nat, order);
                        if tail is Ok {
                            assert(before + (seq![screen@] + tail->Ok_0.0) =~= before.push(screen@)
                                + tail->Ok_0.0);
                        }
                    }
                    screens.push(screen);
                    proof {
                        assert(screen_views(screens@) =~= before.push(screen@));
                    }
                    rest = behind;
                },
                Err(e) => {
                    return Err(e);
                },
            }
            i += 1;
        }
        proof {
            assert(screen_views(screens@) + Seq::<ScreenView>::empty() =~= screen_views(screens@));
        }
        Ok((screens, rest))
    }
}

/// The request that opens the setup exchange.
#[derive(Debug)]
pub struct ConnSetupRequest {
    /// The marker of the byte order in which the client writes.
    pub byte_order: u8,
    /// Major version of the protocol that the client speaks.
    pub protocol_major_version: u16,
    /// Minor version of the protocol that the client speaks.
    pub protocol_minor_version: u16,
    /// The authorization protocol that the client expects the server to use.
    pub authorization_protocol_name: Vec<u8>,
    /// The authorization value itself: the cookie.
    pub authorization_protocol_data: Vec<u8>,
}

/// What a [`ConnSetupRequest`] holds.
pub ghost struct ConnSetupRequestView {
    pub byte_order: u8,
    pub protocol_major_version: u16,
    pub protocol_minor_version: u16,
    pub authorization_protocol_name: Seq<u8>,
    pub authorization_protocol_data: Seq<u8>,
}

impl View for ConnSetupRequest {
    type V = ConnSetupRequestView;

    open spec fn view(&self) -> ConnSetupRequestView {
        ConnSetupRequestView {
            byte_order: self.byte_order,
            protocol_major_version: self.protocol_major_version,
            protocol_minor_version: self.protocol_minor_version,
            authorization_protocol_name: self.authorization_protocol_name@,
            authorization_protocol_data: self.authorization_protocol_data@,
        }
    }
}

/// What the server sends when it accepts the connection.
#[derive(Debug)]
pub struct ConnSetup {
    /// The status byte that the reply starts with.
    pub success: u8,
    /// Major version of the protocol that the server speaks.
    pub protocol_major_version: u16,
    /// Minor version of the protocol that the server speaks.
    pub protocol_minor_version: u16,
    /// Some identification of the owner of the server implementation.
    pub vendor: String,
    /// Release number of the server.
    pub release_number: u32,
    /// The base from which the client makes resource ids.
    pub resource_id_base: u32,
    /// The bits that the client may set in a resource id.
    pub resource_id_mask: u32,
    /// Byte order of image data.
    pub image_byte_order: u8,
    /// The unit in which bitmap scanlines are kept.
    pub bitmap_scanline_unit: u8,
    /// The multiple of bits to which bitmap scanlines are padded.
    pub bitmap_scanline_pad: u8,
    /// Bit order within a byte of bitmap data.
    pub bitmap_bit_order: BitOrder,
    /// The pixmap formats that the server supports.
    pub pixmap_formats: Vec<Format>,
    /// The screens that the server manages.
    pub roots: Vec<Screen>,
    /// Size of the server's motion event buffer.
    pub motion_buffer_size: u32,
    /// The greatest length of a request that the server takes.
    pub maximum_request_length: u16,
    /// The least key code that the server sends.
    pub min_keycode: KeyCode,
    /// The greatest key code that the server sends.
    pub max_keycode: KeyCode,
}

/// What a [`ConnSetup`] holds.
pub ghost struct ConnSetupView {
    pub success: u8,
    pub protocol_major_version: u16,
    pub protocol_minor_version: u16,
    pub vendor: Seq<char>,
    pub release_number: u32,
    pub resource_id_base: u32,
    pub resource_id_mask: u32,
    pub image_byte_order: u8,
    pub bitmap_scanline_unit: u8,
    pub bitmap_scanline_pad: u8,
    pub bitmap_bit_order: BitOrder,
    pub pixmap_formats: Seq<Format>,
    pub roots: Seq<ScreenView>,
    pub motion_buffer_size: u32,
    pub maximum_request_length: u16,
    pub min_keycode: KeyCode,
    pub max_keycode: KeyCode,
}

impl View for ConnSetup {
    type V = ConnSetupView;

    open spec fn view(&self) -> ConnSetupView {
        ConnSetupView {
            success: self.success,
            protocol_major_version: self.protocol_major_version,
            protocol_minor_version: self.protocol_minor_version,
            vendor: self.vendor@,
            release_number: self.release_number,
            resource_id_base: self.resource_id_base,
            resource_id_mask: self.resource_id_mask,
            image_byte_order: self.image_byte_order,
            bitmap_scanline_unit: self.bitmap_scanline_unit,
            bitmap_scanline_pad: self.bitmap_scanline_pad,
            bitmap_bit_order: self.bitmap_bit_order,
            pixmap_formats: self.pixmap_formats@,
            roots: screen_views(self.roots@),
            motion_buffer_size: self.motion_buffer_size,
            maximum_request_length: self.maximum_request_length,
            min_keycode: self.min_keycode,
            max_keycode: self.max_keycode,
        }
    }
}

/// What the server sends when it refuses the connection.
#[derive(Debug)]
pub struct ConnFailed {
    /// The status byte that the reply starts with.
    pub status: u8,
    /// Major version of the protocol that the server speaks.
    pub protocol_major_version: u8,
    /// Minor version of the protocol that the server speaks.
    pub protocol_minor_version: u8,
    /// Reason of the refusal.
    pub reason: String,
}

} // verus!
