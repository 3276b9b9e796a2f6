//! Terminal graphics: which protocol to use, how far to decode an image, and
//! encoding a decoded image so that it fits the viewer.

use image::DynamicImage;
use ratatui_image::errors::Errors;
use ratatui_image::picker::Picker;
use ratatui_image::protocol::Protocol;
use vstd::prelude::*;

use crate::geometry::{at_least_one, Size};
use crate::key::{nonzero_length, CacheKey};

verus! {

/// Upper bound in pixels on either side of a decoded image. What bounds it as a
/// rule is the terminal's pixel viewport; this only bites on very large displays.
pub const MAX_IMAGE_DIMENSION: u32 = 3000;

/// `ratatui_image::picker::Picker`: what is known of the terminal, and the
/// encoder for it.
#[verifier::external_type_specification]
#[verifier::external_body]
pub struct ExPicker(Picker);

/// `ratatui_image::protocol::Protocol`: an image encoded for a terminal.
#[verifier::external_type_specification]
#[verifier::external_body]
pub struct ExProtocol(Protocol);

/// `ratatui_image::errors::Errors`: why an image could not be encoded.
#[verifier::external_type_specification]
#[verifier::external_body]
pub struct ExErrors(Errors);

/// `image::DynamicImage`: a decoded image.
#[verifier::external_type_specification]
#[verifier::external_body]
pub struct ExDynamicImage(DynamicImage);

/// The ways of `ratatui_image::picker::ProtocolType` to show an image.
#[derive(Clone, Copy, Debug, PartialEq, Eq, Structural)]
pub enum ProtocolType {
    Halfblocks,
    Sixel,
    Kitty,
    Iterm2,
}

/// The size of a terminal cell in pixels.
#[derive(Clone, Copy, Debug, PartialEq, Eq, Structural)]
pub struct FontSize {
    pub width: u16,
    pub height: u16,
}

/// What `Picker::protocol_type` returns.
pub uninterp spec fn picker_protocol(picker: Picker) -> ProtocolType;

/// What `Picker::font_size` returns.
pub uninterp spec fn picker_font(picker: Picker) -> FontSize;

/// The picker that `Picker::set_protocol_type` leaves of `picker`.
pub uninterp spec fn with_protocol(picker: Picker, protocol: ProtocolType) -> Picker;

/// What `Protocol::size` returns.
pub uninterp spec fn protocol_size(protocol: Protocol) -> Size;

/// What `GenericImageView::dimensions` returns: width and height in pixels.
pub uninterp spec fn image_dimensions(image: DynamicImage) -> (u32, u32);

/// What `Resize::natural_size` returns for an image with these dimensions: the
/// cells that it takes up unscaled.
pub uninterp spec fn natural_size(dimensions: (u32, u32), font: FontSize) -> Size;

/// What `Resize::size_for` returns with `Resize::Fit(None)` for an image with these
/// dimensions: the cells that it takes up when it is scaled to fit into `bounds`.
pub uninterp spec fn fitted_size(dimensions: (u32, u32), font: FontSize, bounds: Size) -> Size;

/// The length in bytes of what `DynamicImage::as_bytes` returns.
pub uninterp spec fn image_byte_length(image: DynamicImage) -> nat;

/// What `ColorType::bytes_per_pixel` returns for the image's `DynamicImage::color`.
pub uninterp spec fn image_pixel_bytes(image: DynamicImage) -> nat;

/// `Picker::new_protocol` succeeds in encoding `image` to fit into `bounds`.
pub uninterp spec fn encodes(picker: Picker, image: DynamicImage, bounds: Size) -> bool;

/// `protocol` is a value that `Picker::new_protocol` may return for `image` when
/// it is to fit into `bounds`. There may be several: a Kitty image has a random
/// id.
pub uninterp spec fn is_encoding(
    protocol: Protocol,
    picker: Picker,
    image: DynamicImage,
    bounds: Size,
) -> bool;

/// Calls `Picker::protocol_type`, which reads a field of the picker.
#[verifier::external_body]
pub(crate) fn protocol_type_of(picker: &Picker) -> (r: ProtocolType)
    ensures
        r == picker_protocol(*picker),
{
    match picker.protocol_type() {
        ratatui_image::picker::ProtocolType::Halfblocks => ProtocolType::Halfblocks,
        ratatui_image::picker::ProtocolType::Sixel => ProtocolType::Sixel,
        ratatui_image::picker::ProtocolType::Kitty => ProtocolType::Kitty,
        ratatui_image::picker::ProtocolType::Iterm2 => ProtocolType::Iterm2,
    }
}

/// Calls `Picker::set_protocol_type`, which writes that field and no other: the
/// protocol type is then the one given, and the font size is what it was.
#[verifier::external_body]
fn set_protocol_type(picker: &mut Picker, protocol: ProtocolType)
    ensures
        *final(picker) == with_protocol(*old(picker), protocol),
        picker_protocol(*final(picker)) == protocol,
        picker_font(*final(picker)) == picker_font(*old(picker)),
{
    picker.set_protocol_type(match protocol {
        ProtocolType::Halfblocks => ratatui_image::picker::ProtocolType::Halfblocks,
        ProtocolType::Sixel => ratatui_image::picker::ProtocolType::Sixel,
        ProtocolType::Kitty => ratatui_image::picker::ProtocolType::Kitty,
        ProtocolType::Iterm2 => ratatui_image::picker::ProtocolType::Iterm2,
    })
}

/// Calls `Picker::font_size`, which reads a field of the picker.
#[verifier::external_body]
fn font_size_of(picker: &Picker) -> (r: FontSize)
    ensures
        r == picker_font(*picker),
{
    let font = picker.font_size();
    FontSize { width: font.width, height: font.height }
}

/// Calls `Protocol::size`: the cells that the encoded image covers, which are
/// fixed when it is encoded.
#[verifier::external_body]
pub(crate) fn size_of_protocol(protocol: &Protocol) -> (r: Size)
    ensures
        r == protocol_size(*protocol),
{
    let size = protocol.size();
    Size { width: size.width, height: size.height }
}

/// Calls `GenericImageView::dimensions` on the image.
#[verifier::external_body]
fn dimensions_of(image: &DynamicImage) -> (r: (u32, u32))
    ensures
        r == image_dimensions(*image),
{
    image::GenericImageView::dimensions(image)
}

/// Calls `DynamicImage::as_bytes`, and tells how many bytes the image's buffer
/// holds.
#[verifier::external_body]
fn byte_length_of(image: &DynamicImage) -> (r: usize)
    ensures
        r == image_byte_length(*image),
{
    image.as_bytes().len()
}

/// Calls `ColorType::bytes_per_pixel` on the color type that
/// `DynamicImage::color` returns.
#[verifier::external_body]
fn pixel_bytes_of(image: &DynamicImage) -> (r: u8)
    ensures
        r == image_pixel_bytes(*image),
{
    image.color().bytes_per_pixel()
}

/// The cells of `font` pixels each that `pixels` pixels reach into.
pub open spec fn cells_for(pixels: int, font: int) -> int {
    (pixels + font - 1) / font
}

/// A cell has pixels, and the sides of an image with these dimensions are within
/// the range of the coordinates of cells.
pub open spec fn in_cell_range(dimensions: (u32, u32), font: FontSize) -> bool {
    &&& 0 < font.width
    &&& 0 < font.height
    &&& dimensions.0 <= u16::MAX
    &&& dimensions.1 <= u16::MAX
}

/// Calls `Resize::natural_size`. For an image in range this is the number of
/// cells that it reaches into. Beyond, where the call goes by rounded floats and
/// cuts off at `u16::MAX`, only the name says what it is.
#[verifier::external_body]
fn natural_size_of(image: &DynamicImage, font: FontSize) -> (r: Size)
    ensures
        r == natural_size(image_dimensions(*image), font),
        in_cell_range(image_dimensions(*image), font) ==> {
            &&& r.width == cells_for(image_dimensions(*image).0 as int, font.width as int)
            &&& r.height == cells_for(image_dimensions(*image).1 as int, font.height as int)
        },
{
    let font = ratatui_image::FontSize::new(font.width, font.height);
    let size = ratatui_image::Resize::natural_size(image, font);
    Size { width: size.width, height: size.height }
}

/// Calls `Resize::size_for` on `Resize::Fit(None)`. For an image in range the size
/// is within `bounds`; beyond, it may exceed them.
#[verifier::external_body]
fn fitted_size_of(image: &DynamicImage, font: FontSize, bounds: Size) -> (r: Size)
    ensures
        r == fitted_size(image_dimensions(*image), font, bounds),
        in_cell_range(image_dimensions(*image), font) && 0 < bounds.width && 0 < bounds.height
            ==> within(r, bounds),
{
    let font = ratatui_image::FontSize::new(font.width, font.height);
    let available = ratatui::layout::Size::new(bounds.width, bounds.height);
    let size = ratatui_image::Resize::Fit(None).size_for(image, font, available);
    Size { width: size.width, height: size.height }
}

pub open spec fn within(size: Size, bounds: Size) -> bool {
    size.width <= bounds.width && size.height <= bounds.height
}

/// The image's buffer holds its pixels and no more. A buffer may be longer than
/// its pixels need.
pub open spec fn buffer_is_exact(image: DynamicImage) -> bool {
    image_byte_length(image) == image_dimensions(image).0 * image_dimensions(image).1
        * image_pixel_bytes(image)
}

/// The encoder takes an image with these dimensions as it is: it is within
/// `bounds`, and along one side at least it fills its cells.
pub open spec fn is_kept_unscaled(dimensions: (u32, u32), font: FontSize, bounds: Size) -> bool {
    let size = natural_size(dimensions, font);
    &&& within(size, bounds)
    &&& dimensions.0 == size.width * font.width || dimensions.1 == size.height * font.height
}

/// The cells that the encoder gives an image with these dimensions.
pub open spec fn encoded_size(dimensions: (u32, u32), font: FontSize, bounds: Size) -> Size {
    if is_kept_unscaled(dimensions, font, bounds) {
        natural_size(dimensions, font)
    } else {
        fitted_size(dimensions, font, bounds)
    }
}

/// Whether every assertion that `Picker::new_protocol` makes, those of debug
/// builds among them, holds of `image`: a scaled size is within `bounds`, and an
/// image that goes unscaled into the PNG of the iTerm2 protocol has an exact
/// buffer.
pub open spec fn encodable(picker: Picker, image: DynamicImage, bounds: Size) -> bool {
    let dimensions = image_dimensions(image);
    &&& within(encoded_size(dimensions, picker_font(picker), bounds), bounds)
    &&& picker_protocol(picker) is Iterm2 && is_kept_unscaled(
        dimensions,
        picker_font(picker),
        bounds,
    ) ==> buffer_is_exact(image)
}

/// Whether the encoder takes an image as it is, and how many cells it gives it.
fn plan_encoding(image: &DynamicImage, font: FontSize, bounds: Size) -> (r: (bool, Size))
    requires
        0 < bounds.width,
        0 < bounds.height,
    ensures
        r.0 == is_kept_unscaled(image_dimensions(*image), font, bounds),
        r.1 == encoded_size(image_dimensions(*image), font, bounds),
        in_cell_range(image_dimensions(*image), font) ==> within(r.1, bounds),
        in_cell_range(image_dimensions(*image), font) ==> has_plain_size(
            r.1,
            image_dimensions(*image),
            font,
            bounds,
        ),
{
    let (width, height): (u32, u32) = dimensions_of(image);
    let natural = natural_size_of(image, font);
    let fitted = fitted_size_of(image, font, bounds);
    if natural.width <= bounds.width && natural.height <= bounds.height && (width == pixels_of(
        natural.width,
        font.width,
    ) || height == pixels_of(natural.height, font.height)) {
        (true, natural)
    } else {
        (false, fitted)
    }
}

/// The pixels of `cells` cells with `font` pixels each.
fn pixels_of(cells: u16, font: u16) -> (pixels: u32)
    ensures
        pixels == cells * font,
{
    assert(0 <= cells * font <= 0xffff * 0xffff) by (nonlinear_arith)
        requires
            0 <= cells <= 0xffff,
            0 <= font <= 0xffff,
    ;
    cells as u32 * font as u32
}

/// `size` is what an image in range with these dimensions is encoded to, where no
/// scaling is needed: the cells that it reaches into.
pub open spec fn has_plain_size(
    size: Size,
    dimensions: (u32, u32),
    font: FontSize,
    bounds: Size,
) -> bool {
    let columns = cells_for(dimensions.0 as int, font.width as int);
    let rows = cells_for(dimensions.1 as int, font.height as int);
    columns <= bounds.width && rows <= bounds.height && (dimensions.0 == columns * font.width
        || dimensions.1 == rows * font.height) ==> size.width == columns && size.height == rows
}

/// Whether `picker` can be asked to encode `image` so that it fits into `bounds`:
/// whether it is [`encodable`]. An image in range with an exact buffer is.
pub fn is_encodable(picker: &Picker, image: &DynamicImage, bounds: Size) -> (r: bool)
    requires
        0 < bounds.width,
        0 < bounds.height,
    ensures
        r == encodable(*picker, *image, bounds),
        in_cell_range(image_dimensions(*image), picker_font(*picker)) && buffer_is_exact(*image)
            ==> r,
        in_cell_range(image_dimensions(*image), picker_font(*picker)) ==> has_plain_size(
            encoded_size(image_dimensions(*image), picker_font(*picker), bounds),
            image_dimensions(*image),
            picker_font(*picker),
            bounds,
        ),
{
    let (unscaled, size): (bool, Size) = plan_encoding(image, font_size_of(picker), bounds);
    size.width <= bounds.width && size.height <= bounds.height && (!unscaled || protocol_type_of(
        picker,
    ) != ProtocolType::Iterm2 || has_exact_buffer(image))
}

/// Whether the image's buffer holds its pixels and no more.
fn has_exact_buffer(image: &DynamicImage) -> (r: bool)
    ensures
        r == buffer_is_exact(*image),
{
    let (width, height): (u32, u32) = dimensions_of(image);
    let pixel: u8 = pixel_bytes_of(image);
    assert(0 <= width * height <= 0xffff_ffff * 0xffff_ffff) by (nonlinear_arith)
        requires
            0 <= width <= 0xffff_ffff,
            0 <= height <= 0xffff_ffff,
    ;
    let pixels: u128 = width as u128 * height as u128;
    assert(0 <= pixels * pixel <= 0xffff_ffff * 0xffff_ffff * 0xff) by (nonlinear_arith)
        requires
            0 <= pixels <= 0xffff_ffff * 0xffff_ffff,
            0 <= pixel <= 0xff,
    ;
    byte_length_of(image) as u128 == pixels * pixel as u128
}

/// Calls `Picker::new_protocol` with `Resize::Fit(None)`. Whether it succeeds is
/// a matter of its arguments alone, which [`encodes`] names; half-blocks and
/// Kitty encode any image. What comes back is an encoding of the image, with its
/// proportions kept, and its size is the one that `Resize` works out.
#[verifier::external_body]
fn new_protocol(picker: &Picker, image: DynamicImage, bounds: Size) -> (r: Result<Protocol, Errors>)
    requires
        encodable(*picker, image, bounds),
        0 < bounds.width,
        0 < bounds.height,
    ensures
        r is Ok <==> encodes(*picker, image, bounds),
        r matches Ok(protocol) ==> {
            &&& is_encoding(protocol, *picker, image, bounds)
            &&& protocol_size(protocol) == encoded_size(
                image_dimensions(image),
                picker_font(*picker),
                bounds,
            )
        },
        picker_protocol(*picker) is Halfblocks ==> r is Ok,
        picker_protocol(*picker) is Kitty ==> r is Ok,
{
    let size = ratatui::layout::Size::new(bounds.width, bounds.height);
    picker.new_protocol(image, size, ratatui_image::Resize::Fit(None))
}

/// The protocol to use where the terminal query found `detected`.
pub open spec fn preferred_protocol(detected: ProtocolType, host_is_iterm2: bool) -> ProtocolType {
    if host_is_iterm2 && detected is Kitty {
        ProtocolType::Iterm2
    } else {
        detected
    }
}

/// The environment's `TERM_PROGRAM` and `LC_TERMINAL` are those of iTerm2.
pub open spec fn environment_is_iterm2(
    term_program: Option<Seq<char>>,
    lc_terminal: Option<Seq<char>>,
) -> bool {
    ||| term_program == Some("iTerm.app"@)
    ||| lc_terminal == Some("iTerm2"@)
}

/// The view of an environment variable's value.
pub open spec fn variable_view(value: Option<String>) -> Option<Seq<char>> {
    match value {
        Some(s) => Some(s@),
        None => None,
    }
}

/// Whether the host terminal is iTerm2, by the values of the environment
/// variables `TERM_PROGRAM` and `LC_TERMINAL` that it, and terminals that tunnel
/// through it, set.
pub fn is_iterm2(term_program: &Option<String>, lc_terminal: &Option<String>) -> (r: bool)
    ensures
        r == environment_is_iterm2(variable_view(*term_program), variable_view(*lc_terminal)),
{
    variable_is(term_program, "iTerm.app") || variable_is(lc_terminal, "iTerm2")
}

/// Whether an environment variable is set to `expected`.
fn variable_is(value: &Option<String>, expected: &str) -> (r: bool)
    ensures
        r == (variable_view(*value) == Some(expected@)),
{
    match value {
        Some(value) => *value == expected.to_owned(),
        None => false,
    }
}

/// `picker` is what the preference for iTerm2's own protocol leaves of
/// `detected`: the protocol is the preferred one, and nothing else is changed.
pub open spec fn is_preferred_picker(
    picker: Picker,
    detected: Picker,
    host_is_iterm2: bool,
) -> bool {
    &&& picker_protocol(picker) == preferred_protocol(picker_protocol(detected), host_is_iterm2)
    &&& picker_font(picker) == picker_font(detected)
    &&& picker == (if host_is_iterm2 && picker_protocol(detected) is Kitty {
        with_protocol(detected, ProtocolType::Iterm2)
    } else {
        detected
    })
}

/// iTerm2 answers the Kitty capability query, so the query settles on Kitty; but
/// the Kitty renderer uses Unicode placeholders, which iTerm2 does not have, and
/// nothing appears. Force iTerm2's own inline images there instead.
pub fn prefer_iterm2_over_kitty(picker: &mut Picker, host_is_iterm2: bool)
    ensures
        is_preferred_picker(*final(picker), *old(picker), host_is_iterm2),
{
    if protocol_type_of(picker) == ProtocolType::Kitty && host_is_iterm2 {
        set_protocol_type(picker, ProtocolType::Iterm2);
    }
}

/// The picker to use, given what the terminal query returned and the values of
/// `TERM_PROGRAM` and `LC_TERMINAL`. `None` exactly when the query failed; the
/// caller then falls back to ASCII art.
pub fn detect_picker(
    queried: Result<Picker, Errors>,
    term_program: &Option<String>,
    lc_terminal: &Option<String>,
) -> (r: Option<Picker>)
    ensures
        r is Some <==> queried is Ok,
        r matches Some(picker) ==> is_preferred_picker(
            picker,
            queried->Ok_0,
            environment_is_iterm2(variable_view(*term_program), variable_view(*lc_terminal)),
        ),
{
    match queried {
        Ok(picker) => {
            let mut picker = picker;
            let host_is_iterm2 = is_iterm2(term_program, lc_terminal);
            prefer_iterm2_over_kitty(&mut picker, host_is_iterm2);
            Some(picker)
        },
        Err(_) => None,
    }
}

/// The most pixels to decode along a side of `cells` cells with `font` pixels
/// each: those of the viewport, but no more than [`MAX_IMAGE_DIMENSION`] and at
/// least one.
pub open spec fn decode_limit(cells: int, font: int) -> int {
    let pixels = cells * nonzero_length(font);
    if pixels < 1 {
        1
    } else if pixels > MAX_IMAGE_DIMENSION {
        MAX_IMAGE_DIMENSION as int
    } else {
        pixels
    }
}

fn side_limit(cells: u16, font: u16) -> (limit: u32)
    ensures
        limit == decode_limit(cells as int, font as int),
{
    let font: u16 = at_least_one(font);
    assert(0 <= cells * font <= 0xffff * 0xffff) by (nonlinear_arith)
        requires
            0 <= cells <= 0xffff,
            0 <= font <= 0xffff,
    ;
    let pixels: u32 = cells as u32 * font as u32;
    if pixels < 1 {
        1
    } else if pixels > MAX_IMAGE_DIMENSION {
        MAX_IMAGE_DIMENSION
    } else {
        pixels
    }
}

/// How wide and how high to decode an image for `key` at most, with cells of
/// `font` pixels. Decoding a full-size photo would cost several full-frame
/// buffers, far more than the encoded image that is kept.
pub fn decode_limits_for_font(font: FontSize, key: &CacheKey) -> (r: (u32, u32))
    ensures
        r.0 == decode_limit(key.width as int, font.width as int),
        r.1 == decode_limit(key.height as int, font.height as int),
{
    (side_limit(key.width, font.width), side_limit(key.height, font.height))
}

/// [`decode_limits_for_font`] with the font of `picker`.
pub fn decode_limits(picker: &Picker, key: &CacheKey) -> (r: (u32, u32))
    ensures
        r.0 == decode_limit(key.width as int, picker_font(*picker).width as int),
        r.1 == decode_limit(key.height as int, picker_font(*picker).height as int),
{
    decode_limits_for_font(font_size_of(picker), key)
}

/// The cells that a build for `key` has to fit into.
pub open spec fn build_bounds(key: CacheKey) -> Size {
    Size {
        width: nonzero_length(key.width as int) as u16,
        height: nonzero_length(key.height as int) as u16,
    }
}

/// What an attempt to encode comes to: the encoded image, or `None` where it
/// failed.
pub fn encoded_or_none(encoded: Result<Protocol, Errors>) -> (r: Option<Protocol>)
    ensures
        r == (match encoded {
            Ok(protocol) => Some(protocol),
            Err(_) => None,
        }),
{
    match encoded {
        Ok(protocol) => Some(protocol),
        Err(_) => None,
    }
}

/// `r` is what becomes of a decoded image that is to be encoded for `key`:
/// an encoding of it that fits the viewer area of `key`, exactly if decoding had
/// succeeded, the image is [`encodable`] and the encoder succeeds. Half-blocks
/// and Kitty never fail, and an image in range with an exact buffer is encodable.
pub open spec fn is_protocol_build(
    r: Option<Protocol>,
    picker: Picker,
    decoded: Option<DynamicImage>,
    key: CacheKey,
) -> bool {
    match decoded {
        None => r is None,
        Some(image) => if encodable(picker, image, build_bounds(key)) {
            match r {
                Some(protocol) => {
                    &&& encodes(picker, image, build_bounds(key))
                    &&& is_encoding(protocol, picker, image, build_bounds(key))
                    &&& protocol_size(protocol) == encoded_size(
                        image_dimensions(image),
                        picker_font(picker),
                        build_bounds(key),
                    )
                    &&& within(protocol_size(protocol), build_bounds(key))
                    &&& in_cell_range(image_dimensions(image), picker_font(picker))
                        ==> has_plain_size(
                        protocol_size(protocol),
                        image_dimensions(image),
                        picker_font(picker),
                        build_bounds(key),
                    )
                },
                None => {
                    &&& !encodes(picker, image, build_bounds(key))
                    &&& picker_protocol(picker) is Sixel || picker_protocol(picker) is Iterm2
                },
            }
        } else {
            &&& r is None
            &&& !(in_cell_range(image_dimensions(image), picker_font(picker)) && buffer_is_exact(
                image,
            ))
        },
    }
}

/// Encode a decoded image so that it fits the viewer area of `key`. `decoded` is
/// `None` if reading or decoding the image failed.
///
/// The image is one whole-image protocol, scaled down to the area with its
/// proportions kept. Where the encoder would fail one of its assertions, because
/// the image is not [`encodable`], the build fails before it gets there.
pub fn build_protocol(picker: &Picker, decoded: Option<DynamicImage>, key: &CacheKey) -> (r: Option<
    Protocol,
>)
    ensures
        is_protocol_build(r, *picker, decoded, *key),
{
    match decoded {
        None => None,
        Some(image) => {
            let bounds = Size {
                width: at_least_one(key.width),
                height: at_least_one(key.height),
            };
            if !is_encodable(picker, &image, bounds) {
                return None;
            }
            encoded_or_none(new_protocol(picker, image, bounds))
        },
    }
}

/// An image is never decoded beyond the ceiling nor beyond the pixels of the
/// viewport it is shown in, and never to nothing.
pub proof fn decode_limit_is_the_smaller_of_viewport_and_ceiling(cells: int, font: int)
    requires
        1 <= cells,
        1 <= font,
    ensures
        1 <= decode_limit(cells, font) <= MAX_IMAGE_DIMENSION,
        decode_limit(cells, font) <= cells * font,
        decode_limit(cells, font) == MAX_IMAGE_DIMENSION || decode_limit(cells, font) == cells
            * font,
{
    assert(1 <= cells * font) by (nonlinear_arith)
        requires
            1 <= cells,
            1 <= font,
    ;
}

/// An image decoded within its limits is in range, whatever the viewport, unless
/// the terminal reports cells without pixels.
pub proof fn images_within_the_decode_limits_are_in_range(
    font: FontSize,
    key: CacheKey,
    dimensions: (u32, u32),
)
    requires
        0 < font.width,
        0 < font.height,
        dimensions.0 <= decode_limit(key.width as int, font.width as int),
        dimensions.1 <= decode_limit(key.height as int, font.height as int),
    ensures
        in_cell_range(dimensions, font),
{
}

/// An image decoded within its limits, in cells that have pixels, is built exactly
/// if the encoder succeeds, and always for half-blocks and Kitty; and it fits the
/// viewer area.
pub proof fn images_within_the_decode_limits_are_built(
    r: Option<Protocol>,
    picker: Picker,
    image: DynamicImage,
    key: CacheKey,
)
    requires
        is_protocol_build(r, picker, Some(image), key),
        0 < picker_font(picker).width,
        0 < picker_font(picker).height,
        image_dimensions(image).0 <= decode_limit(
            key.width as int,
            picker_font(picker).width as int,
        ),
        image_dimensions(image).1 <= decode_limit(
            key.height as int,
            picker_font(picker).height as int,
        ),
        buffer_is_exact(image),
    ensures
        r is Some <==> encodes(picker, image, build_bounds(key)),
        picker_protocol(picker) is Kitty || picker_protocol(picker) is Halfblocks ==> r is Some,
        r matches Some(protocol) ==> within(protocol_size(protocol), build_bounds(key)),
{
    images_within_the_decode_limits_are_in_range(picker_font(picker), key, image_dimensions(image));
}

/// On iTerm2 the Kitty protocol is never used; elsewhere the detected protocol
/// stays, and asking twice changes nothing.
pub proof fn iterm2_never_uses_kitty(detected: ProtocolType, host_is_iterm2: bool)
    ensures
        host_is_iterm2 ==> !(preferred_protocol(detected, host_is_iterm2) is Kitty),
        !host_is_iterm2 ==> preferred_protocol(detected, host_is_iterm2) == detected,
        !(detected is Kitty) ==> preferred_protocol(detected, host_is_iterm2) == detected,
        preferred_protocol(preferred_protocol(detected, host_is_iterm2), host_is_iterm2)
            == preferred_protocol(detected, host_is_iterm2),
{
}

} // verus!
