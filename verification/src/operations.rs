//! What each operation does, in terms of what goes in and what comes out.
//!
//! Every law here speaks of an operation through its contract alone: whatever the
//! contract lets the operation return or change, the law holds of it.

use std::sync::mpsc::{Receiver, Sender};

use image::DynamicImage;
use ratatui_image::errors::Errors;
use ratatui_image::picker::Picker;
use ratatui_image::protocol::Protocol;
use vstd::prelude::*;

use crate::cache::{AsciiArt, Cache, CacheState};
use crate::geometry::{
    at_least_one, centered_rect, checked_centered_rect, viewer_image_size, Rect, Size,
};
use crate::graphics::{
    build_bounds, build_protocol, cells_for, decode_limits, decode_limits_for_font, detect_picker, encoded_or_none, encodes,
    fitted_size, image_byte_length, image_dimensions, image_pixel_bytes, is_encodable, is_encoding,
    is_iterm2, is_protocol_build, natural_size, picker_font, picker_protocol, prefer_iterm2_over_kitty, protocol_size,
    with_protocol, FontSize, ProtocolType, MAX_IMAGE_DIMENSION,
};
use crate::key::{path_identity, CacheKey, ImageAsset, KeyView};
use crate::laws::{
    asking_in_vain_does_nothing, other_images_keep_their_state, polling_folds_what_it_takes,
    results_keep_the_cached_keys, the_last_result_decides,
};
use crate::runtime::{
    asset_keys, choose_backend, is_graphics, is_plan, state_of, Backend, ImageRuntime, ImageStatus,
    RenderPlan, RuntimeView,
};
use crate::worker::{
    handed_in, handed_out, BuildMode, BuildRequest, BuildResult, Built, Handover, Worker,
};

verus! {

// Geometry.

/// The viewer's border takes two cells off either side, but never the last one.
pub proof fn the_viewer_size_is_the_area_without_its_border(area: Rect, size: Size)
    requires
        call_ensures(viewer_image_size, (area,), size),
    ensures
        area.width >= 3 ==> size.width + 2 == area.width,
        area.width < 3 ==> size.width == 1,
        area.height >= 3 ==> size.height + 2 == area.height,
        area.height < 3 ==> size.height == 1,
{
}

/// Only a length of zero is changed, to one.
pub proof fn lengths_are_kept_unless_zero(length: u16, r: u16)
    requires
        call_ensures(at_least_one, (length,), r),
    ensures
        length > 0 ==> r == length,
        length == 0 ==> r == 1,
{
}

/// Along one side, `length` cells from `start` on are a content of `content` cells
/// within `available` cells from `from` on: as much of it as there is room for,
/// with blank margins before and behind that differ by at most one cell, the
/// smaller one before.
pub open spec fn stands_centered(
    start: int,
    length: int,
    from: int,
    available: int,
    content: int,
) -> bool {
    let before = start - from;
    let behind = from + available - (start + length);
    &&& content <= available ==> length == content
    &&& content > available ==> length == available
    &&& 0 <= before <= behind <= before + 1
}

/// A centered content is whole where it fits, fills the area where it does not,
/// and stands in the middle, along each side by itself.
pub proof fn a_centered_rect_is_whole_and_in_the_middle(area: Rect, content: Size, rect: Rect)
    requires
        call_ensures(centered_rect, (area, content), rect),
    ensures
        stands_centered(
            rect.x as int,
            rect.width as int,
            area.x as int,
            area.width as int,
            content.width as int,
        ),
        stands_centered(
            rect.y as int,
            rect.height as int,
            area.y as int,
            area.height as int,
            content.height as int,
        ),
{
}

/// Centering gives up only where the corner has no coordinates, and is otherwise
/// whole and in the middle.
pub proof fn checked_centering_fails_only_out_of_range(
    area: Rect,
    content: Size,
    r: Option<Rect>,
)
    requires
        call_ensures(checked_centered_rect, (area, content), r),
    ensures
        r is None <==> area.x + (area.width - content.width) / 2 > u16::MAX || area.y + (area.height
            - content.height) / 2 > u16::MAX,
        r matches Some(rect) ==> {
            &&& stands_centered(
                rect.x as int,
                rect.width as int,
                area.x as int,
                area.width as int,
                content.width as int,
            )
            &&& stands_centered(
                rect.y as int,
                rect.height as int,
                area.y as int,
                area.height as int,
                content.height as int,
            )
        },
{
}

// Keys.

/// The key of an image names its entry and its file, and the size it was asked
/// for at, where a side of no cells counts as one cell.
pub proof fn a_key_names_the_asset_and_the_size(asset: ImageAsset, area: Size, key: CacheKey)
    requires
        call_ensures(CacheKey::new, (&asset, area), key),
    ensures
        path_identity(key.entry_path) == path_identity(asset.entry_path),
        key.file_name@ == asset.file_name@,
        area.width > 0 ==> key.width == area.width,
        area.width == 0 ==> key.width == 1,
        area.height > 0 ==> key.height == area.height,
        area.height == 0 ==> key.height == 1,
{
}

/// Two assets at two sizes have one key exactly if they are the same file of the
/// same entry, at sizes that differ at most in that one says zero where the other
/// says one.
pub proof fn keys_tell_images_apart(a: ImageAsset, size_a: Size, b: ImageAsset, size_b: Size)
    ensures
        a.key_at(size_a) == b.key_at(size_b) <==> {
            &&& path_identity(a.entry_path) == path_identity(b.entry_path)
            &&& a.file_name@ == b.file_name@
            &&& size_a.width == size_b.width || size_a.width <= 1 && size_b.width <= 1
            &&& size_a.height == size_b.height || size_a.height <= 1 && size_b.height <= 1
        },
        a.key_at(size_a).path == path_identity(a.entry_path),
        a.key_at(size_a).file_name == a.file_name@,
        size_a.width > 0 ==> a.key_at(size_a).width == size_a.width,
        size_a.width == 0 ==> a.key_at(size_a).width == 1,
        size_a.height > 0 ==> a.key_at(size_a).height == size_a.height,
        size_a.height == 0 ==> a.key_at(size_a).height == 1,
{
}

/// Keys are compared by everything they hold.
pub proof fn keys_are_the_same_if_every_part_is(a: CacheKey, b: CacheKey, r: bool)
    requires
        call_ensures(CacheKey::same_as, (&a, &b), r),
    ensures
        r <==> {
            &&& path_identity(a.entry_path) == path_identity(b.entry_path)
            &&& a.file_name@ == b.file_name@
            &&& a.width == b.width
            &&& a.height == b.height
        },
        a@ == b@ <==> r,
{
}

/// A copy of a key holds what the key holds.
pub proof fn copies_of_keys_are_equal(key: CacheKey, copy: CacheKey)
    requires
        call_ensures(<CacheKey as Clone>::clone, (&key,), copy),
    ensures
        path_identity(copy.entry_path) == path_identity(key.entry_path),
        copy.file_name@ == key.file_name@,
        copy.width == key.width,
        copy.height == key.height,
{
}

/// A copy of an asset has the asset's key at every size.
pub proof fn copies_of_assets_have_the_same_keys(asset: ImageAsset, copy: ImageAsset, size: Size)
    requires
        call_ensures(<ImageAsset as Clone>::clone, (&asset,), copy),
    ensures
        path_identity(copy.entry_path) == path_identity(asset.entry_path),
        copy.file_name@ == asset.file_name@,
        copy.key_at(size) == asset.key_at(size),
{
}

// Detection.

/// Either variable is enough to tell iTerm2, whatever the other one is; without
/// both the terminal is another one.
pub proof fn either_variable_tells_iterm2(
    term_program: Option<String>,
    lc_terminal: Option<String>,
    r: bool,
)
    requires
        call_ensures(is_iterm2, (&term_program, &lc_terminal), r),
    ensures
        term_program is Some && term_program->0@ == "iTerm.app"@ ==> r,
        lc_terminal is Some && lc_terminal->0@ == "iTerm2"@ ==> r,
        (term_program is None || term_program->0@ != "iTerm.app"@) && (lc_terminal is None
            || lc_terminal->0@ != "iTerm2"@) ==> !r,
{
}

/// On iTerm2 a picker for Kitty becomes one for iTerm2's own protocol, with the
/// same font; every other picker stays as it is, and so does every picker
/// elsewhere.
pub proof fn only_kitty_on_iterm2_is_replaced(picker: &mut Picker, host_is_iterm2: bool)
    requires
        call_ensures(prefer_iterm2_over_kitty, (picker, host_is_iterm2), ()),
    ensures
        host_is_iterm2 && picker_protocol(*old(picker)) == ProtocolType::Kitty ==> {
            &&& *final(picker) == with_protocol(*old(picker), ProtocolType::Iterm2)
            &&& picker_protocol(*final(picker)) == ProtocolType::Iterm2
        },
        !host_is_iterm2 || picker_protocol(*old(picker)) != ProtocolType::Kitty ==> *final(picker)
            == *old(picker),
        picker_font(*final(picker)) == picker_font(*old(picker)),
{
}

/// A query that succeeded gives its picker, with Kitty replaced by iTerm2's own
/// protocol exactly where one of the variables tells iTerm2; a query that failed
/// gives none.
pub proof fn detection_keeps_the_queried_picker(
    queried: Result<Picker, Errors>,
    term_program: Option<String>,
    lc_terminal: Option<String>,
    r: Option<Picker>,
)
    requires
        call_ensures(detect_picker, (queried, &term_program, &lc_terminal), r),
    ensures
        queried is Err ==> r is None,
        queried matches Ok(found) ==> {
            let on_iterm2 = term_program is Some && term_program->0@ == "iTerm.app"@ || lc_terminal
                is Some && lc_terminal->0@ == "iTerm2"@;
            if on_iterm2 && picker_protocol(found) == ProtocolType::Kitty {
                &&& r == Some(with_protocol(found, ProtocolType::Iterm2))
                &&& picker_protocol(r->0) == ProtocolType::Iterm2
                &&& picker_font(r->0) == picker_font(found)
            } else {
                r == Some(found)
            }
        },
{
}

/// Every protocol but half-blocks is a graphics protocol.
pub proof fn only_half_blocks_are_no_graphics(protocol: ProtocolType, r: bool)
    requires
        call_ensures(is_graphics, (protocol,), r),
    ensures
        r <==> protocol != ProtocolType::Halfblocks,
{
}

/// A picker with a graphics protocol is used, and the worker builds with that very
/// picker; without one, images are shown as ASCII art. Some backend is always
/// chosen.
pub proof fn the_choice_follows_the_protocol(picker: Option<Picker>, r: (Backend, BuildMode))
    requires
        call_ensures(choose_backend, (picker,), r),
    ensures
        picker matches Some(found) && picker_protocol(found) != ProtocolType::Halfblocks ==> r == (
            Backend::Graphics,
            BuildMode::Graphics(picker->0),
        ),
        picker is None || picker_protocol(picker->0) == ProtocolType::Halfblocks ==> r == (
            Backend::Ascii,
            BuildMode::Ascii,
        ),
{
}

// Encoding.

/// `limit` pixels are what a side of `cells` cells with `font` pixels each is
/// decoded to at most: the pixels of the side, a cell without pixels counting as
/// one, but at most the ceiling and at least one.
pub open spec fn limits_a_side(limit: int, cells: int, font: int) -> bool {
    let pixels = if font == 0 { cells } else { cells * font };
    &&& 1 <= limit <= 3000
    &&& cells == 0 ==> limit == 1
    &&& cells > 0 ==> limit <= pixels
    &&& cells > 0 ==> limit == 3000 || limit == pixels
}

/// An image is decoded to the pixels of its viewport, side by side, up to the
/// ceiling.
pub proof fn decoding_stops_at_the_viewport(font: FontSize, key: CacheKey, r: (u32, u32))
    requires
        call_ensures(decode_limits_for_font, (font, &key), r),
    ensures
        limits_a_side(r.0 as int, key.width as int, font.width as int),
        limits_a_side(r.1 as int, key.height as int, font.height as int),
        MAX_IMAGE_DIMENSION == 3000,
{
    lemma_decode_limit(key.width as int, font.width as int);
    lemma_decode_limit(key.height as int, font.height as int);
}

/// The viewport's pixels are those of the picker's font.
pub proof fn decoding_goes_by_the_pickers_font(picker: Picker, key: CacheKey, r: (u32, u32))
    requires
        call_ensures(decode_limits, (&picker, &key), r),
    ensures
        limits_a_side(r.0 as int, key.width as int, picker_font(picker).width as int),
        limits_a_side(r.1 as int, key.height as int, picker_font(picker).height as int),
{
    lemma_decode_limit(key.width as int, picker_font(picker).width as int);
    lemma_decode_limit(key.height as int, picker_font(picker).height as int);
}

proof fn lemma_decode_limit(cells: int, font: int)
    requires
        0 <= cells,
        0 <= font,
    ensures
        limits_a_side(crate::graphics::decode_limit(cells, font), cells, font),
{
    if cells > 0 && font > 0 {
        assert(1 <= cells * font) by (nonlinear_arith)
            requires
                1 <= cells,
                1 <= font,
        ;
    }
}

/// The cells to build into are the key's own, side by side.
pub proof fn builds_are_bounded_by_the_keys_own_cells(key: CacheKey)
    ensures
        key.width > 0 ==> build_bounds(key).width == key.width,
        key.width == 0 ==> build_bounds(key).width == 1,
        key.height > 0 ==> build_bounds(key).height == key.height,
        key.height == 0 ==> build_bounds(key).height == 1,
{
}

/// What is built is an encoding of the decoded image, made by that picker for the
/// key's own cells, and no larger than they are; and nothing is built of an image
/// that could not be decoded.
pub proof fn a_build_encodes_the_image_for_the_keys_cells(
    picker: Picker,
    decoded: Option<DynamicImage>,
    key: CacheKey,
    r: Option<Protocol>,
)
    requires
        call_ensures(build_protocol, (&picker, decoded, &key), r),
        key.width > 0,
        key.height > 0,
    ensures
        r matches Some(protocol) ==> {
            &&& decoded is Some
            &&& is_encoding(
                protocol,
                picker,
                decoded->0,
                Size { width: key.width, height: key.height },
            )
            &&& protocol_size(protocol).width <= key.width
            &&& protocol_size(protocol).height <= key.height
        },
{
}

/// An image that takes up no more cells than the key has, and that fills its cells
/// along one side at least, is built at exactly its own cells. `columns` and `rows`
/// are the cells that its pixels reach into.
pub proof fn an_image_that_fits_keeps_its_own_cells(
    picker: Picker,
    image: DynamicImage,
    key: CacheKey,
    columns: int,
    rows: int,
    r: Option<Protocol>,
)
    requires
        call_ensures(build_protocol, (&picker, Some(image), &key), r),
        0 < picker_font(picker).width,
        0 < picker_font(picker).height,
        image_dimensions(image).0 <= u16::MAX,
        image_dimensions(image).1 <= u16::MAX,
        (columns - 1) * picker_font(picker).width < image_dimensions(image).0 <= columns
            * picker_font(picker).width,
        (rows - 1) * picker_font(picker).height < image_dimensions(image).1 <= rows * picker_font(
            picker,
        ).height,
        columns <= key.width,
        rows <= key.height,
        image_dimensions(image).0 == columns * picker_font(picker).width || image_dimensions(
            image,
        ).1 == rows * picker_font(picker).height,
    ensures
        r matches Some(protocol) ==> protocol_size(protocol).width == columns && protocol_size(
            protocol,
        ).height == rows,
{
    lemma_cells(image_dimensions(image).0 as int, picker_font(picker).width as int, columns);
    lemma_cells(image_dimensions(image).1 as int, picker_font(picker).height as int, rows);
}

proof fn lemma_cells(pixels: int, font: int, cells: int)
    requires
        0 < font,
        (cells - 1) * font < pixels <= cells * font,
    ensures
        cells_for(pixels, font) == cells,
{
    let rest = pixels + font - 1 - cells * font;
    assert(0 <= rest < font) by (nonlinear_arith)
        requires
            (cells - 1) * font < pixels <= cells * font,
            rest == pixels + font - 1 - cells * font,
    ;
    assert((pixels + font - 1) / font == cells) by (nonlinear_arith)
        requires
            0 < font,
            0 <= rest < font,
            pixels + font - 1 == cells * font + rest,
    ;
}

/// An image decoded to the pixels of its viewport or less, in cells that have
/// pixels and without spare bytes, is built whenever the encoder succeeds on it
/// with the key's own cells, and always for Kitty and for half-blocks.
pub proof fn a_decoded_image_is_built(
    picker: Picker,
    image: DynamicImage,
    key: CacheKey,
    limits: (u32, u32),
    r: Option<Protocol>,
)
    requires
        call_ensures(decode_limits, (&picker, &key), limits),
        call_ensures(build_protocol, (&picker, Some(image), &key), r),
        key.width > 0,
        key.height > 0,
        image_dimensions(image).0 <= limits.0,
        image_dimensions(image).1 <= limits.1,
        0 < picker_font(picker).width,
        0 < picker_font(picker).height,
        image_byte_length(image) == image_dimensions(image).0 * image_dimensions(image).1
            * image_pixel_bytes(image),
    ensures
        r is Some <==> encodes(picker, image, Size { width: key.width, height: key.height }),
        picker_protocol(picker) == ProtocolType::Kitty ==> r is Some,
        picker_protocol(picker) == ProtocolType::Halfblocks ==> r is Some,
{
    decoding_goes_by_the_pickers_font(picker, key, limits);
}

/// The encoder is kept from an image only where it would fail an assertion: where
/// the size that it works out is beyond the bounds, or where it would write a PNG
/// out of a buffer with spare bytes.
pub open spec fn may_be_encoded(picker: Picker, image: DynamicImage, bounds: Size) -> bool {
    let dimensions = image_dimensions(image);
    let font = picker_font(picker);
    let natural = natural_size(dimensions, font);
    let fitted = fitted_size(dimensions, font, bounds);
    if natural.width <= bounds.width && natural.height <= bounds.height && (dimensions.0
        == natural.width * font.width || dimensions.1 == natural.height * font.height) {
        picker_protocol(picker) == ProtocolType::Iterm2 ==> image_byte_length(image) == dimensions.0
            * dimensions.1 * image_pixel_bytes(image)
    } else {
        fitted.width <= bounds.width && fitted.height <= bounds.height
    }
}

/// Whatever the image's size, it is told exactly whether the encoder may be asked.
pub proof fn images_are_kept_from_the_encoder_only_for_its_assertions(
    picker: Picker,
    image: DynamicImage,
    bounds: Size,
    r: bool,
)
    requires
        call_ensures(is_encodable, (&picker, &image, bounds), r),
    ensures
        r <==> may_be_encoded(picker, image, bounds),
{
}

/// Whatever the image's size, it is built exactly if the encoder may be asked and
/// succeeds, in the cells that the encoder works out: the image's own where it is
/// taken as it is, else those of the scaled image.
pub proof fn an_image_is_built_if_the_encoder_succeeds(
    picker: Picker,
    image: DynamicImage,
    key: CacheKey,
    bounds: Size,
    r: Option<Protocol>,
)
    requires
        call_ensures(build_protocol, (&picker, Some(image), &key), r),
        bounds.width == key.width || key.width == 0 && bounds.width == 1,
        bounds.height == key.height || key.height == 0 && bounds.height == 1,
        key.width == 0 ==> bounds.width == 1,
        key.height == 0 ==> bounds.height == 1,
    ensures
        r is Some <==> may_be_encoded(picker, image, bounds) && encodes(picker, image, bounds),
        may_be_encoded(picker, image, bounds) && (picker_protocol(picker) == ProtocolType::Kitty
            || picker_protocol(picker) == ProtocolType::Halfblocks) ==> r is Some,
        r matches Some(protocol) ==> {
            let dimensions = image_dimensions(image);
            let font = picker_font(picker);
            let natural = natural_size(dimensions, font);
            &&& is_encoding(protocol, picker, image, bounds)
            &&& protocol_size(protocol) == (if natural.width <= bounds.width && natural.height
                <= bounds.height && (dimensions.0 == natural.width * font.width || dimensions.1
                == natural.height * font.height) {
                natural
            } else {
                fitted_size(dimensions, font, bounds)
            })
        },
{
    assert(bounds == build_bounds(key));
}

/// An encoding is handed on as it is, and an error leaves nothing.
pub proof fn encodings_are_handed_on(encoded: Result<Protocol, Errors>, r: Option<Protocol>)
    requires
        call_ensures(encoded_or_none, (encoded,), r),
    ensures
        encoded matches Ok(protocol) ==> r == Some(protocol),
        encoded is Err ==> r is None,
{
}

// The worker.

/// Without a graphics protocol the drawn ASCII art is the build, as it is; with one
/// the build is what encoding the decoded image for the key gives, and never ASCII
/// art.
pub proof fn the_mode_decides_what_is_built(
    mode: BuildMode,
    key: CacheKey,
    decoded: Option<DynamicImage>,
    drawn: Option<AsciiArt>,
    built: Option<Built>,
)
    requires
        call_ensures(BuildMode::build, (&mode, &key, decoded, drawn), built),
    ensures
        mode is Ascii ==> (match drawn {
            Some(art) => built == Some(Built::Ascii(art)),
            None => built is None,
        }),
        mode matches BuildMode::Graphics(picker) ==> (match built {
            Some(Built::Graphics(protocol)) => is_protocol_build(
                Some(protocol),
                picker,
                decoded,
                key,
            ),
            Some(Built::Ascii(_)) => false,
            None => is_protocol_build(None, picker, decoded, key),
        }),
{
}

/// Of a build that a graphics mode reports: the image was decoded, the build is an
/// encoding of it for the key's own cells, and it fits them. A decoded image is
/// built exactly if the encoder may be asked and succeeds, which for Kitty and for
/// half-blocks it always does.
pub proof fn a_graphics_mode_encodes_the_image(
    picker: Picker,
    key: CacheKey,
    decoded: Option<DynamicImage>,
    drawn: Option<AsciiArt>,
    built: Option<Built>,
)
    requires
        call_ensures(
            BuildMode::build,
            (&BuildMode::Graphics(picker), &key, decoded, drawn),
            built,
        ),
        key.width > 0,
        key.height > 0,
    ensures
        built matches Some(build) ==> {
            &&& decoded is Some
            &&& build matches Built::Graphics(protocol)
            &&& is_encoding(
                protocol,
                picker,
                decoded->0,
                Size { width: key.width, height: key.height },
            )
            &&& protocol_size(protocol).width <= key.width
            &&& protocol_size(protocol).height <= key.height
        },
        decoded matches Some(image) ==> (built is Some <==> may_be_encoded(
            picker,
            image,
            Size { width: key.width, height: key.height },
        ) && encodes(picker, image, Size { width: key.width, height: key.height })),
        decoded matches Some(image) && (picker_protocol(picker) == ProtocolType::Kitty
            || picker_protocol(picker) == ProtocolType::Halfblocks) && may_be_encoded(
            picker,
            decoded->0,
            Size { width: key.width, height: key.height },
        ) ==> built is Some,
{
    assert(build_bounds(key) == (Size { width: key.width, height: key.height }));
}

/// An answer carries the build under the request's own generation and key.
pub proof fn an_answer_belongs_to_its_request(
    request: BuildRequest,
    built: Option<Built>,
    result: BuildResult,
)
    requires
        call_ensures(BuildRequest::answer, (request, built), result),
    ensures
        result.generation == request.generation,
        path_identity(result.key.entry_path) == path_identity(request.key.entry_path),
        result.key.file_name@ == request.key.file_name@,
        result.key.width == request.key.width,
        result.key.height == request.key.height,
        result.built == built,
{
}

/// A result answers the requests of its own generation for its own image, and no
/// others; its view and that of a request leave nothing out.
pub proof fn results_answer_their_own_requests(request: BuildRequest, result: BuildResult)
    ensures
        result@.answers(request@) <==> {
            &&& result.generation == request.generation
            &&& path_identity(result.key.entry_path) == path_identity(request.key.entry_path)
            &&& result.key.file_name@ == request.key.file_name@
            &&& result.key.width == request.key.width
            &&& result.key.height == request.key.height
        },
        request@.generation == request.generation,
        request@.key == request.key@,
        result@.generation == result.generation,
        result@.key == result.key@,
        result@.built == result.built,
{
}

/// A new handle has sent and received nothing, and holds the ends it was given.
pub proof fn a_new_handle_holds_its_ends(
    requests: Sender<BuildRequest>,
    results: Receiver<BuildResult>,
    worker: Worker,
)
    requires
        call_ensures(Worker::new, (requests, results), worker),
    ensures
        worker.request_channel() == requests,
        worker.result_channel() == results,
        worker@.sent.len() == 0,
        worker@.receipts.len() == 0,
{
}

/// A renewed handle holds the same ends.
pub proof fn a_renewed_handle_holds_the_same_ends(worker: Worker, renewed: Worker)
    requires
        call_ensures(Worker::renewed, (worker,), renewed),
    ensures
        renewed.request_channel() == worker.request_channel(),
        renewed.result_channel() == worker.result_channel(),
        renewed@.sent.len() == 0,
        renewed@.receipts.len() == 0,
{
}

/// Sending hands in that one request, and takes nothing out.
pub proof fn sending_hands_in_one_request(
    worker: &mut Worker,
    request: BuildRequest,
    accepted: bool,
)
    requires
        call_ensures(Worker::send, (worker, request), accepted),
    ensures
        handed_in(final(worker).request_channel()) == handed_in(old(worker).request_channel()).push(
            (Handover { request: request@, accepted }),
        ),
        final(worker).result_channel() == old(worker).result_channel(),
        final(worker)@.sent == old(worker)@.sent.push((Handover { request: request@, accepted })),
        final(worker)@.receipts == old(worker)@.receipts,
{
}

/// Receiving takes out what it returns, in one look, and hands nothing in.
pub proof fn receiving_takes_what_it_returns(worker: &mut Worker, r: Option<BuildResult>)
    requires
        call_ensures(Worker::try_recv, (worker,), r),
    ensures
        ({
            let receipt = match r {
                Some(result) => Some(result@),
                None => None,
            };
            &&& handed_out(final(worker).result_channel()) == handed_out(
                old(worker).result_channel(),
            ).push(receipt)
            &&& final(worker)@.receipts == old(worker)@.receipts.push(receipt)
        }),
        final(worker).request_channel() == old(worker).request_channel(),
        final(worker)@.sent == old(worker)@.sent,
{
}

// The cache.

/// What was put in under a key is what is found there.
pub proof fn the_cache_gives_back_what_was_put_in(
    cache: &mut Cache,
    key: CacheKey,
    state: CacheState,
    looked_up: CacheKey,
    found: Option<&CacheState>,
)
    requires
        call_ensures(Cache::insert, (cache, key, state), ()),
        call_ensures(Cache::get, (final(cache), &looked_up), found),
        looked_up@ == key@,
    ensures
        found matches Some(there) && *there == state,
{
}

/// Putting a state in under one key leaves every other key as it was.
pub proof fn the_cache_keeps_other_keys(
    cache: &mut Cache,
    key: CacheKey,
    state: CacheState,
    other: CacheKey,
    before: Option<&CacheState>,
    after: Option<&CacheState>,
)
    requires
        call_ensures(Cache::insert, (cache, key, state), ()),
        call_ensures(Cache::get, (old(cache), &other), before),
        call_ensures(Cache::get, (final(cache), &other), after),
        other@ != key@,
    ensures
        before is Some <==> after is Some,
        before is Some ==> *after->0 == *before->0,
{
}

/// A cleared cache, and a new one, hold nothing.
pub proof fn nothing_is_found_in_an_empty_cache(
    cache: &mut Cache,
    fresh: Cache,
    key: CacheKey,
    found: Option<&CacheState>,
    found_fresh: Option<&CacheState>,
)
    requires
        call_ensures(Cache::clear, (cache,), ()),
        call_ensures(Cache::new, (), fresh),
        call_ensures(Cache::get, (final(cache), &key), found),
        call_ensures(Cache::get, (&fresh, &key), found_fresh),
    ensures
        found is None,
        found_fresh is None,
{
}

/// A request that was taken makes its image load, and one that was refused changes
/// nothing; whether a key has a state is whether one is found.
pub proof fn noting_a_request_makes_its_image_load(
    cache: &mut Cache,
    key: CacheKey,
    accepted: bool,
    looked_up: CacheKey,
    before: Option<&CacheState>,
    after: Option<&CacheState>,
    contained: bool,
)
    requires
        call_ensures(Cache::note_request, (cache, key, accepted), ()),
        call_ensures(Cache::get, (old(cache), &looked_up), before),
        call_ensures(Cache::get, (final(cache), &looked_up), after),
        call_ensures(Cache::contains_key, (final(cache), &looked_up), contained),
    ensures
        contained <==> after is Some,
        accepted && looked_up@ == key@ ==> after is Some && *after->0 == CacheState::Loading,
        !(accepted && looked_up@ == key@) ==> {
            &&& before is Some <==> after is Some
            &&& before is Some ==> *after->0 == *before->0
        },
{
}

// The runtime.

/// A runtime with a worker has the backend it was given, an empty cache and the
/// worker's own channels, untouched; one without a worker has no backend.
pub proof fn a_new_runtime_is_empty(backend: Backend, worker: Option<Worker>, runtime: ImageRuntime)
    requires
        call_ensures(ImageRuntime::new, (backend, worker), runtime),
    ensures
        runtime.wf(),
        runtime@.backend == (if worker is Some {
            backend
        } else {
            Backend::Disabled
        }),
        runtime@.generation == 0,
        runtime@.folded.len() == 0,
        forall|key: KeyView| !#[trigger] runtime@.cache.contains_key(key),
        worker matches Some(worker) ==> {
            &&& runtime@.worker is Some
            &&& runtime@.worker->0.sent.len() == 0
            &&& runtime@.worker->0.receipts.len() == 0
            &&& runtime.request_channel() == Some(worker.request_channel())
            &&& runtime.result_channel() == Some(worker.result_channel())
        },
        worker is None ==> runtime@.worker is None,
{
}

/// A runtime that was not set up has no backend, no worker and no images.
pub proof fn a_default_runtime_is_disabled(runtime: ImageRuntime)
    requires
        call_ensures(<ImageRuntime as Default>::default, (), runtime),
    ensures
        runtime.wf(),
        runtime@.backend == Backend::Disabled,
        runtime@.generation == 0,
        runtime@.worker is None,
        forall|key: KeyView| !#[trigger] runtime@.cache.contains_key(key),
{
}

/// Images can be rendered with either backend; graphics are used with one of them.
pub proof fn the_backend_is_reported(
    runtime: ImageRuntime,
    enabled: bool,
    graphics: bool,
    generation: u64,
)
    requires
        call_ensures(ImageRuntime::enabled, (&runtime,), enabled),
        call_ensures(ImageRuntime::uses_graphics, (&runtime,), graphics),
        call_ensures(ImageRuntime::generation, (&runtime,), generation),
    ensures
        enabled <==> runtime@.backend == Backend::Graphics || runtime@.backend == Backend::Ascii,
        graphics <==> runtime@.backend == Backend::Graphics,
        generation == runtime@.generation,
{
}

/// The state that a result leaves holds the very build that was reported, with all
/// it consists of; a failed build leaves the state that says so.
pub proof fn the_reported_build_is_cached_as_it_is(art: AsciiArt, protocol: Protocol)
    ensures
        state_of(Some(Built::Ascii(art))) == CacheState::ReadyAscii(art),
        state_of(Some(Built::Graphics(protocol))) == CacheState::ReadyGraphics(protocol),
        state_of(None) == CacheState::Failed,
{
}

/// Folding in a result of the current generation for a cached image puts the
/// reported build in the image's place, as it is, and says so. Any other result
/// changes nothing that is cached, and says so. No other image changes, no image
/// comes or goes, and the channels are left alone.
pub proof fn folding_caches_the_reported_build(
    runtime: &mut ImageRuntime,
    result: BuildResult,
    changed: bool,
    other: KeyView,
)
    requires
        call_ensures(ImageRuntime::fold_result, (runtime, result), changed),
    ensures
        changed <==> result.generation == old(runtime)@.generation && old(
            runtime,
        )@.cache.contains_key(result.key@),
        changed ==> (match result.built {
            Some(Built::Graphics(protocol)) => final(runtime)@.cache[result.key@]
                == CacheState::ReadyGraphics(protocol),
            Some(Built::Ascii(art)) => final(runtime)@.cache[result.key@]
                == CacheState::ReadyAscii(art),
            None => final(runtime)@.cache[result.key@] == CacheState::Failed,
        }),
        final(runtime)@.cache.contains_key(other) <==> old(runtime)@.cache.contains_key(other),
        !changed || other != result.key@ ==> (old(runtime)@.cache.contains_key(other)
            ==> final(runtime)@.cache[other] == old(runtime)@.cache[other]),
        final(runtime)@.folded == old(runtime)@.folded.push(result@),
        final(runtime)@.backend == old(runtime)@.backend,
        final(runtime)@.generation == old(runtime)@.generation,
        final(runtime)@.worker == old(runtime)@.worker,
        final(runtime).request_channel() == old(runtime).request_channel(),
        final(runtime).result_channel() == old(runtime).result_channel(),
{
}

/// What is polled is folded in: every result taken off the channel, in order, until
/// the channel was found empty (or the counter ran out), each once. An image is
/// then what the last result of the current generation for it made of it, and what
/// it was where there was none. The caller is told whether there was any for an
/// image that is cached. No image comes or goes, and nothing is sent.
pub proof fn polling_folds_every_result_in(runtime: &mut ImageRuntime, changed: bool)
    requires
        call_ensures(ImageRuntime::poll_results, (runtime,), changed),
    ensures
        ({
            let before = old(runtime)@;
            let after = final(runtime)@;
            let n = before.folded.len();
            let arrived = after.folded.len() - n;
            &&& before.folded.is_prefix_of(after.folded)
            &&& changed <==> exists|i: int|
                n <= i < after.folded.len() && (#[trigger] after.folded[i]).generation
                    == before.generation && before.cache.contains_key(after.folded[i].key)
            &&& forall|key: KeyView| #[trigger]
                after.cache.contains_key(key) <==> before.cache.contains_key(key)
            &&& forall|i: int|
                n <= i < after.folded.len() && (#[trigger] after.folded[i]).generation
                    == before.generation && before.cache.contains_key(after.folded[i].key) && !(
                exists|j: int|
                    i < j < after.folded.len() && (#[trigger] after.folded[j]).generation
                        == before.generation && after.folded[j].key == after.folded[i].key)
                    ==> after.cache[after.folded[i].key] == state_of(after.folded[i].built)
            &&& forall|key: KeyView| #[trigger]
                before.cache.contains_key(key) && !(exists|i: int|
                    n <= i < after.folded.len() && (#[trigger] after.folded[i]).generation
                        == before.generation && after.folded[i].key == key) ==> after.cache[key]
                    == before.cache[key]
            &&& before.worker is None ==> arrived == 0 && after.worker is None
            &&& before.worker matches Some(worker) ==> {
                let receipts = after.worker->0.receipts;
                let taken = worker.receipts.len();
                &&& after.worker is Some
                &&& after.worker->0.sent == worker.sent
                &&& worker.receipts.is_prefix_of(receipts)
                &&& forall|i: int|
                    0 <= i < arrived ==> #[trigger] receipts[taken + i] == Some(
                        after.folded[n + i],
                    )
                &&& arrived < u64::MAX ==> receipts.len() == taken + arrived + 1 && receipts.last()
                    is None
            }
            &&& after.backend == before.backend
            &&& after.generation == before.generation
        }),
        final(runtime).request_channel() == old(runtime).request_channel(),
        old(runtime).result_channel() matches Some(receiver) ==> handed_out(
            final(runtime).result_channel()->0,
        ) == handed_out(receiver) + final(runtime)@.worker->0.receipts.skip(
            old(runtime)@.worker->0.receipts.len() as int,
        ),
{
    let before = old(runtime)@;
    let after = final(runtime)@;
    let n = before.folded.len() as int;
    let arrived = after.folded.skip(n);
    let dry = arrived.len() < u64::MAX;
    assert(after == before.after_poll(arrived, dry));
    results_keep_the_cached_keys(before, arrived);
    assert(after.folded == before.folded + arrived);
    assert forall|i: int| n <= i < after.folded.len() implies #[trigger] after.folded[i] == arrived[i
        - n] by {}
    if before.any_applies(arrived) {
        let i = choose|i: int| 0 <= i < arrived.len() && before.applies(#[trigger] arrived[i]);
        assert(after.folded[n + i] == arrived[i]);
    }
    if exists|i: int|
        n <= i < after.folded.len() && (#[trigger] after.folded[i]).generation == before.generation
            && before.cache.contains_key(after.folded[i].key) {
        let i = choose|i: int|
            n <= i < after.folded.len() && (#[trigger] after.folded[i]).generation
                == before.generation && before.cache.contains_key(after.folded[i].key);
        assert(before.applies(arrived[i - n]));
    }
    assert forall|key: KeyView| #[trigger] after.cache.contains_key(key)
        <==> before.cache.contains_key(key) by {
        assert(after.cache.dom().contains(key) == before.cache.dom().contains(key));
    }
    assert forall|i: int|
        n <= i < after.folded.len() && (#[trigger] after.folded[i]).generation == before.generation
            && before.cache.contains_key(after.folded[i].key) && !(exists|j: int|
            i < j < after.folded.len() && (#[trigger] after.folded[j]).generation
                == before.generation && after.folded[j].key == after.folded[i].key) implies
        after.cache[after.folded[i].key] == state_of(after.folded[i].built) by {
        assert forall|j: int| i - n < j < arrived.len() implies !(#[trigger] before.applies(
            arrived[j],
        ) && arrived[j].key == arrived[i - n].key) by {
            assert(after.folded[n + j] == arrived[j]);
        }
        the_last_result_decides(before, arrived, i - n);
    }
    assert forall|key: KeyView| #[trigger]
        before.cache.contains_key(key) && !(exists|i: int|
            n <= i < after.folded.len() && (#[trigger] after.folded[i]).generation
                == before.generation && after.folded[i].key == key) implies after.cache[key]
        == before.cache[key] by {
        assert forall|j: int| 0 <= j < arrived.len() implies !(#[trigger] before.applies(arrived[j])
            && arrived[j].key == key) by {
            assert(after.folded[n + j] == arrived[j]);
        }
        other_images_keep_their_state(before, arrived, key);
    }
    polling_folds_what_it_takes(before, arrived, dry);
    if before.worker is Some {
        let receipts = after.worker->0.receipts;
        let taken = before.worker->0.receipts.len() as int;
        assert forall|i: int| 0 <= i < arrived.len() implies #[trigger] receipts[taken + i] == Some(
            after.folded[n + i],
        ) by {
            assert(receipts[taken + i] == Some(arrived[i]));
        }
    }
}

/// Something is pending exactly while some image is cached as loading.
pub proof fn pending_means_that_an_image_loads(runtime: ImageRuntime, r: bool)
    requires
        call_ensures(ImageRuntime::has_pending, (&runtime,), r),
    ensures
        r <==> exists|key: KeyView| #[trigger]
            runtime@.cache.contains_key(key) && runtime@.cache[key] == CacheState::Loading,
{
    if r {
        let key = choose|key: KeyView| #[trigger]
            runtime@.cache.contains_key(key) && runtime@.cache[key] is Loading;
        assert(runtime@.cache[key] == CacheState::Loading);
    }
}

/// A clear empties the cache and starts the next generation, and does nothing else.
pub proof fn a_clear_empties_the_cache(runtime: &mut ImageRuntime)
    requires
        call_ensures(ImageRuntime::clear, (runtime,), ()),
    ensures
        forall|key: KeyView| !#[trigger] final(runtime)@.cache.contains_key(key),
        final(runtime)@.generation == old(runtime)@.generation + 1,
        final(runtime)@.backend == old(runtime)@.backend,
        final(runtime)@.worker == old(runtime)@.worker,
        final(runtime)@.folded == old(runtime)@.folded,
        final(runtime).request_channel() == old(runtime).request_channel(),
        final(runtime).result_channel() == old(runtime).result_channel(),
{
}

/// The runtime goes by the keys of the assets, at the size that is asked for.
pub proof fn the_runtime_goes_by_the_assets_keys(
    runtime: ImageRuntime,
    asset: ImageAsset,
    area: Size,
    key: CacheKey,
)
    requires
        call_ensures(ImageRuntime::key, (&runtime, &asset, area), key),
    ensures
        path_identity(key.entry_path) == path_identity(asset.entry_path),
        key.file_name@ == asset.file_name@,
        area.width > 0 ==> key.width == area.width,
        area.width == 0 ==> key.width == 1,
        area.height > 0 ==> key.height == area.height,
        area.height == 0 ==> key.height == 1,
        key@ == asset.key_at(area),
{
}

/// There is something to request exactly where a backend and a worker are there and
/// the image is not cached, and it is the image's build in the current generation.
pub proof fn what_is_not_cached_is_requested(
    runtime: ImageRuntime,
    asset: ImageAsset,
    area: Size,
    r: Option<BuildRequest>,
)
    requires
        call_ensures(ImageRuntime::start_request, (&runtime, &asset, area), r),
    ensures
        r is Some <==> runtime@.backend != Backend::Disabled && runtime@.worker is Some
            && !runtime@.cache.contains_key(asset.key_at(area)),
        r matches Some(request) ==> {
            &&& request.generation == runtime@.generation
            &&& path_identity(request.key.entry_path) == path_identity(asset.entry_path)
            &&& request.key.file_name@ == asset.file_name@
            &&& area.width > 0 ==> request.key.width == area.width
            &&& area.width == 0 ==> request.key.width == 1
            &&& area.height > 0 ==> request.key.height == area.height
            &&& area.height == 0 ==> request.key.height == 1
        },
{
}

/// Asking for an image that is not cached sends one request for it, in the current
/// generation, and has it load exactly if the channel took the request. Otherwise
/// nothing is sent and nothing changes. No other image is touched, and nothing is
/// received.
pub proof fn asking_for_an_image_sends_one_request(
    runtime: &mut ImageRuntime,
    asset: ImageAsset,
    area: Size,
    other: KeyView,
)
    requires
        call_ensures(ImageRuntime::start, (runtime, &asset, area), ()),
    ensures
        ({
            let before = old(runtime)@;
            let after = final(runtime)@;
            let key = asset.key_at(area);
            if before.backend != Backend::Disabled && before.worker is Some
                && !before.cache.contains_key(key) {
                let sent = after.worker->0.sent;
                &&& after.worker is Some
                &&& sent.len() == before.worker->0.sent.len() + 1
                &&& before.worker->0.sent.is_prefix_of(sent)
                &&& sent.last().request.generation == before.generation
                &&& sent.last().request.key == key
                &&& after.cache.contains_key(key) <==> sent.last().accepted
                &&& sent.last().accepted ==> after.cache[key] == CacheState::Loading
                &&& after.worker->0.receipts == before.worker->0.receipts
                &&& old(runtime).request_channel() matches Some(sender) ==> handed_in(
                    final(runtime).request_channel()->0,
                ) == handed_in(sender).push(sent.last())
            } else {
                &&& after == before
                &&& old(runtime).request_channel() matches Some(sender) ==> handed_in(
                    final(runtime).request_channel()->0,
                ) == handed_in(sender)
            }
        }),
        other != asset.key_at(area) ==> {
            &&& final(runtime)@.cache.contains_key(other) <==> old(runtime)@.cache.contains_key(
                other,
            )
            &&& old(runtime)@.cache.contains_key(other) ==> final(runtime)@.cache[other] == old(
                runtime,
            )@.cache[other]
        },
        final(runtime)@.backend == old(runtime)@.backend,
        final(runtime)@.generation == old(runtime)@.generation,
        final(runtime)@.folded == old(runtime)@.folded,
        final(runtime).result_channel() == old(runtime).result_channel(),
{
    old(runtime).lemma_channels_are_the_workers();
    if old(runtime)@.worker is Some {
        let before = old(runtime)@.worker->0.sent;
        let after = final(runtime)@.worker->0.sent;
        let history = handed_in(old(runtime).request_channel()->0);
        if after.len() > before.len() {
            assert(after.skip(before.len() as int) =~= seq![after.last()]);
            assert(history + seq![after.last()] =~= history.push(after.last()));
        } else {
            assert(history + after.skip(before.len() as int) =~= history);
        }
    }
}

/// Some request for `key` from position `from` on was refused by the channel.
pub open spec fn was_refused(sent: Seq<Handover>, from: int, key: KeyView) -> bool {
    exists|j: int|
        from <= j < sent.len() && (#[trigger] sent[j]).request.key == key && !sent[j].accepted
}

/// Some request for `key` from position `from` on was taken by the channel.
pub open spec fn was_taken(sent: Seq<Handover>, from: int, key: KeyView) -> bool {
    exists|j: int|
        from <= j < sent.len() && (#[trigger] sent[j]).request.key == key && sent[j].accepted
}

/// The requests from position `from` on are for some of the keys, in their order:
/// `picks` are the positions of those keys.
pub open spec fn follow_the_keys(
    sent: Seq<Handover>,
    from: int,
    keys: Seq<KeyView>,
    picks: Seq<int>,
) -> bool {
    &&& picks.len() == sent.len() - from
    &&& forall|a: int|
        0 <= a < picks.len() ==> 0 <= #[trigger] picks[a] < keys.len() && sent[from
            + a].request.key == keys[picks[a]]
    &&& forall|a: int, b: int| 0 <= a < b < picks.len() ==> #[trigger] picks[a] < #[trigger] picks[b]
}

/// The keys that are warmed are those of all the assets, one for one.
pub proof fn every_asset_has_its_key(assets: Seq<ImageAsset>, size: Size)
    ensures
        asset_keys(assets, size).len() == assets.len(),
        forall|i: int|
            0 <= i < assets.len() ==> #[trigger] asset_keys(assets, size)[i] == assets[i].key_at(
                size,
            ),
{
}

/// Warming asks for every image of the slice. Afterwards each of them is cached,
/// unless a request for it was refused. What is sent is for images of the slice
/// that were not cached, in their order, in the current generation, and never for
/// one that was taken already. What is newly cached loads, and is exactly what the
/// channel took; what was cached stays as it is. Without a backend or a worker
/// nothing happens. Nothing is received.
pub proof fn warming_asks_for_every_image(
    runtime: &mut ImageRuntime,
    assets: &[ImageAsset],
    size: Size,
)
    requires
        call_ensures(ImageRuntime::warm, (runtime, assets, size), ()),
    ensures
        ({
            let before = old(runtime)@;
            let after = final(runtime)@;
            if before.backend == Backend::Disabled || before.worker is None {
                after == before
            } else {
                let sent = after.worker->0.sent;
                let n = before.worker->0.sent.len() as int;
                &&& after.worker is Some
                &&& before.worker->0.sent.is_prefix_of(sent)
                &&& forall|i: int|
                    0 <= i < assets@.len() ==> after.cache.contains_key(
                        (#[trigger] assets@[i]).key_at(size),
                    ) || was_refused(sent, n, assets@[i].key_at(size))
                &&& forall|j: int|
                    n <= j < sent.len() ==> (#[trigger] sent[j]).request.generation
                        == before.generation && !before.cache.contains_key(sent[j].request.key)
                        && exists|i: int|
                        0 <= i < assets@.len() && sent[j].request.key == (
                        #[trigger] assets@[i]).key_at(size)
                &&& exists|picks: Seq<int>| #[trigger]
                    follow_the_keys(sent, n, asset_keys(assets@, size), picks)
                &&& forall|i: int, j: int|
                    n <= i < j < sent.len() && (#[trigger] sent[i]).accepted ==> (
                    #[trigger] sent[j]).request.key != sent[i].request.key
                &&& forall|key: KeyView| #[trigger]
                    after.cache.contains_key(key) <==> before.cache.contains_key(key) || was_taken(
                        sent,
                        n,
                        key,
                    )
                &&& forall|key: KeyView| #[trigger]
                    after.cache.contains_key(key) ==> after.cache[key] == (
                    if before.cache.contains_key(key) {
                        before.cache[key]
                    } else {
                        CacheState::Loading
                    })
                &&& after.worker->0.receipts == before.worker->0.receipts
            }
        }),
        final(runtime)@.backend == old(runtime)@.backend,
        final(runtime)@.generation == old(runtime)@.generation,
        final(runtime)@.folded == old(runtime)@.folded,
        old(runtime).request_channel() matches Some(sender) ==> handed_in(
            final(runtime).request_channel()->0,
        ) == handed_in(sender) + final(runtime)@.worker->0.sent.skip(
            old(runtime)@.worker->0.sent.len() as int,
        ),
        final(runtime).result_channel() == old(runtime).result_channel(),
{
    let before = old(runtime)@;
    let keys = asset_keys(assets@, size);
    let accepted = choose|accepted: Seq<bool>|
        accepted.len() == assets@.len() && final(runtime)@ == #[trigger] before.after_starts(
            keys,
            accepted,
        );
    if before.backend == Backend::Disabled || before.worker is None {
        asking_in_vain_does_nothing(before, keys, accepted);
    } else {
        lemma_warming(before, keys, accepted);
        let sent = final(runtime)@.worker->0.sent;
        let n = before.worker->0.sent.len() as int;
        assert forall|i: int| 0 <= i < assets@.len() implies final(runtime)@.cache.contains_key(
            (#[trigger] assets@[i]).key_at(size),
        ) || was_refused(sent, n, assets@[i].key_at(size)) by {
            assert(keys[i] == assets@[i].key_at(size));
        }
        let picks = choose|picks: Seq<int>| #[trigger] follow_the_keys(sent, n, keys, picks);
        assert forall|j: int| n <= j < sent.len() implies exists|i: int|
            0 <= i < assets@.len() && (#[trigger] sent[j]).request.key == (
            #[trigger] assets@[i]).key_at(size) by {
            assert(sent[n + (j - n)].request.key == keys[picks[j - n]]);
            assert(keys[picks[j - n]] == assets@[picks[j - n]].key_at(size));
        }
    }
}

proof fn lemma_warming(view: RuntimeView, keys: Seq<KeyView>, accepted: Seq<bool>)
    requires
        view.enabled(),
        view.worker is Some,
    ensures
        ({
            let after = view.after_starts(keys, accepted);
            let sent = after.worker->0.sent;
            let n = view.worker->0.sent.len() as int;
            &&& after.worker is Some
            &&& after.backend == view.backend
            &&& after.generation == view.generation
            &&& after.folded == view.folded
            &&& after.worker->0.receipts == view.worker->0.receipts
            &&& view.worker->0.sent.is_prefix_of(sent)
            &&& forall|i: int|
                0 <= i < keys.len() ==> after.cache.contains_key(#[trigger] keys[i]) || was_refused(
                    sent,
                    n,
                    keys[i],
                )
            &&& forall|j: int|
                n <= j < sent.len() ==> (#[trigger] sent[j]).request.generation == view.generation
                    && !view.cache.contains_key(sent[j].request.key)
            &&& exists|picks: Seq<int>| #[trigger] follow_the_keys(sent, n, keys, picks)
            &&& forall|i: int, j: int|
                n <= i < j < sent.len() && (#[trigger] sent[i]).accepted ==> (
                #[trigger] sent[j]).request.key != sent[i].request.key
            &&& forall|key: KeyView| #[trigger]
                after.cache.contains_key(key) <==> view.cache.contains_key(key) || was_taken(
                    sent,
                    n,
                    key,
                )
            &&& forall|key: KeyView| #[trigger]
                after.cache.contains_key(key) ==> after.cache[key] == (
                if view.cache.contains_key(key) {
                    view.cache[key]
                } else {
                    CacheState::Loading
                })
        }),
    decreases keys.len(),
{
    let after = view.after_starts(keys, accepted);
    let sent = after.worker->0.sent;
    let n = view.worker->0.sent.len() as int;
    if keys.len() == 0 {
        assert(follow_the_keys(sent, n, keys, Seq::empty()));
    } else {
        let rest = keys.drop_last();
        let last = keys.last();
        let before = view.after_starts(rest, accepted);
        let earlier = before.worker->0.sent;
        lemma_warming(view, rest, accepted);
        let picks = choose|picks: Seq<int>| #[trigger] follow_the_keys(earlier, n, rest, picks);
        let m = earlier.len() as int;
        if before.wants(last) {
            assert(sent == earlier.push(
                Handover { request: before.request(last), accepted: accepted[keys.len() - 1] },
            ));
            let more = picks.push(keys.len() - 1);
            assert forall|a: int| 0 <= a < more.len() implies 0 <= #[trigger] more[a] < keys.len()
                && sent[n + a].request.key == keys[more[a]] by {
                if a < picks.len() {
                    assert(more[a] == picks[a]);
                    assert(sent[n + a] == earlier[n + a]);
                    assert(rest[picks[a]] == keys[picks[a]]);
                }
            }
            assert(follow_the_keys(sent, n, keys, more));
        } else {
            assert(after == before);
            assert forall|a: int| 0 <= a < picks.len() implies 0 <= #[trigger] picks[a] < keys.len()
                && sent[n + a].request.key == keys[picks[a]] by {
                assert(rest[picks[a]] == keys[picks[a]]);
            }
            assert(follow_the_keys(sent, n, keys, picks));
        }
        assert(view.worker->0.sent.is_prefix_of(sent));
        assert forall|key: KeyView| was_refused(earlier, n, key) implies was_refused(
            sent,
            n,
            key,
        ) by {
            let j = choose|j: int|
                n <= j < earlier.len() && (#[trigger] earlier[j]).request.key == key
                    && !earlier[j].accepted;
            assert(sent[j] == earlier[j]);
        }
        assert forall|key: KeyView| was_taken(sent, n, key) <==> (was_taken(earlier, n, key) || (
        before.wants(last) && accepted[keys.len() - 1] && key == last)) by {
            if was_taken(earlier, n, key) {
                let j = choose|j: int|
                    n <= j < earlier.len() && (#[trigger] earlier[j]).request.key == key
                        && earlier[j].accepted;
                assert(sent[j] == earlier[j]);
            }
            if before.wants(last) && accepted[keys.len() - 1] && key == last {
                assert(sent[m].request.key == key && sent[m].accepted);
            }
            if was_taken(sent, n, key) {
                let j = choose|j: int|
                    n <= j < sent.len() && (#[trigger] sent[j]).request.key == key
                        && sent[j].accepted;
                if j < m {
                    assert(earlier[j] == sent[j]);
                }
            }
        }
        assert forall|i: int| 0 <= i < keys.len() implies after.cache.contains_key(
            #[trigger] keys[i],
        ) || was_refused(sent, n, keys[i]) by {
            if i < rest.len() {
                assert(rest[i] == keys[i]);
            } else if before.wants(last) && !accepted[keys.len() - 1] {
                assert(sent[m].request.key == last && !sent[m].accepted);
            }
        }
        assert forall|j: int| n <= j < sent.len() implies (#[trigger] sent[j]).request.generation
            == view.generation && !view.cache.contains_key(sent[j].request.key) by {
            if j < m {
                assert(sent[j] == earlier[j]);
            }
        }
        assert forall|i: int, j: int|
            n <= i < j < sent.len() && (#[trigger] sent[i]).accepted implies (
        #[trigger] sent[j]).request.key != sent[i].request.key by {
            assert(sent[i] == earlier[i]);
            if j < m {
                assert(sent[j] == earlier[j]);
            } else {
                assert(was_taken(earlier, n, sent[i].request.key));
                assert(before.cache.contains_key(sent[i].request.key));
            }
        }
    }
}

/// An image is ready exactly if a build of it is cached, loads exactly if it is
/// cached as loading, and is unavailable otherwise; without a backend every image
/// is.
pub proof fn the_status_is_that_of_the_cached_state(
    runtime: ImageRuntime,
    asset: ImageAsset,
    area: Size,
    r: ImageStatus,
)
    requires
        call_ensures(ImageRuntime::status, (&runtime, &asset, area), r),
    ensures
        ({
            let key = asset.key_at(area);
            let there = runtime@.backend != Backend::Disabled && runtime@.cache.contains_key(key);
            let state = runtime@.cache[key];
            &&& r == ImageStatus::Ready <==> there && (state is ReadyGraphics || state is ReadyAscii)
            &&& r == ImageStatus::Loading <==> there && state is Loading
            &&& r == ImageStatus::Unavailable <==> !there || state is Failed
        }),
{
}

/// `rect` shows a content of this size, whole where it fits into `area`, cut to it
/// where it does not, and in the middle.
pub open spec fn shows_centered(rect: Rect, area: Rect, width: u16, height: u16) -> bool {
    &&& stands_centered(
        rect.x as int,
        rect.width as int,
        area.x as int,
        area.width as int,
        width as int,
    )
    &&& stands_centered(
        rect.y as int,
        rect.height as int,
        area.y as int,
        area.height as int,
        height as int,
    )
}

/// The corner of a centered content of this size has no coordinates.
pub open spec fn is_out_of_range(area: Rect, width: u16, height: u16) -> bool {
    area.x + (area.width - width) / 2 > u16::MAX || area.y + (area.height - height) / 2 > u16::MAX
}

/// What is painted is the cached build itself, ASCII art or encoded image, whole
/// where it fits and in the middle of the area; and nothing where no build is cached
/// at the area's size. Only where the corner has no coordinates is a build not
/// painted.
pub proof fn the_cached_build_is_painted_centered(
    runtime: ImageRuntime,
    area: Rect,
    asset: ImageAsset,
    plan: RenderPlan<'_>,
)
    requires
        call_ensures(ImageRuntime::render, (&runtime, area, &asset), plan),
    ensures
        ({
            let key = asset.key_at(Size { width: area.width, height: area.height });
            if runtime@.cache.contains_key(key) {
                match runtime@.cache[key] {
                    CacheState::ReadyAscii(cached) => match plan {
                        RenderPlan::Ascii { art, rect } => {
                            &&& *art == cached
                            &&& shows_centered(rect, area, cached.cols, cached.rows)
                        },
                        RenderPlan::OutOfRange => is_out_of_range(area, cached.cols, cached.rows),
                        _ => false,
                    },
                    CacheState::ReadyGraphics(cached) => match plan {
                        RenderPlan::Graphics { protocol, rect } => {
                            &&& *protocol == cached
                            &&& shows_centered(
                                rect,
                                area,
                                protocol_size(cached).width,
                                protocol_size(cached).height,
                            )
                        },
                        RenderPlan::OutOfRange => is_out_of_range(
                            area,
                            protocol_size(cached).width,
                            protocol_size(cached).height,
                        ),
                        _ => false,
                    },
                    CacheState::Loading => plan is Nothing,
                    CacheState::Failed => plan is Nothing,
                }
            } else {
                plan is Nothing
            }
        }),
{
}

/// ASCII art that fits its area is painted whole: the rectangle has the art's
/// columns and rows, and the margins on opposite sides differ by at most one cell.
pub proof fn ascii_art_is_painted_whole(
    view: RuntimeView,
    plan: RenderPlan<'_>,
    area: Rect,
    key: KeyView,
)
    requires
        is_plan(plan, view, area, key),
        view.cache.contains_key(key),
        view.cache[key] matches CacheState::ReadyAscii(art) && art.cols <= area.width && art.rows
            <= area.height,
    ensures
        plan matches RenderPlan::Ascii { art, rect } ==> {
            let left = rect.x - area.x;
            let right = area.x + area.width - (rect.x + rect.width);
            let top = rect.y - area.y;
            let bottom = area.y + area.height - (rect.y + rect.height);
            &&& view.cache[key] == CacheState::ReadyAscii(*art)
            &&& rect.width == art.cols
            &&& rect.height == art.rows
            &&& 0 <= left <= right <= left + 1
            &&& 0 <= top <= bottom <= top + 1
        },
        area.x + area.width <= u16::MAX && area.y + area.height <= u16::MAX ==> plan is Ascii,
{
}

/// An encoded image is painted at its own size, as far as the area allows, in the
/// middle, whatever its size.
pub proof fn an_encoded_image_is_painted_centered(
    view: RuntimeView,
    plan: RenderPlan<'_>,
    area: Rect,
    key: KeyView,
)
    requires
        is_plan(plan, view, area, key),
        view.cache.contains_key(key),
        view.cache[key] is ReadyGraphics,
    ensures
        plan matches RenderPlan::Graphics { protocol, rect } ==> {
            &&& view.cache[key] == CacheState::ReadyGraphics(*protocol)
            &&& shows_centered(
                rect,
                area,
                protocol_size(*protocol).width,
                protocol_size(*protocol).height,
            )
        },
        area.x + area.width <= u16::MAX && area.y + area.height <= u16::MAX ==> plan is Graphics,
{
}

/// What the worker reports is what is shown: once a result for an image that was
/// asked for at the area's size is folded in, its status and what is painted of it
/// are those of the reported build, at the reported size.
pub proof fn the_reported_build_is_shown(
    runtime: &mut ImageRuntime,
    result: BuildResult,
    changed: bool,
    asset: ImageAsset,
    area: Rect,
    status: ImageStatus,
    plan: RenderPlan<'_>,
)
    requires
        call_ensures(ImageRuntime::fold_result, (runtime, result), changed),
        call_ensures(
            ImageRuntime::status,
            (final(runtime), &asset, Size { width: area.width, height: area.height }),
            status,
        ),
        call_ensures(ImageRuntime::render, (final(runtime), area, &asset), plan),
        old(runtime)@.backend != Backend::Disabled,
        changed,
        result.key@ == asset.key_at(Size { width: area.width, height: area.height }),
        area.x + area.width <= u16::MAX,
        area.y + area.height <= u16::MAX,
    ensures
        match result.built {
            Some(Built::Ascii(reported)) => {
                &&& status == ImageStatus::Ready
                &&& plan matches RenderPlan::Ascii { art, rect }
                &&& *art == reported
                &&& shows_centered(rect, area, reported.cols, reported.rows)
            },
            Some(Built::Graphics(reported)) => {
                &&& status == ImageStatus::Ready
                &&& plan matches RenderPlan::Graphics { protocol, rect }
                &&& *protocol == reported
                &&& shows_centered(
                    rect,
                    area,
                    protocol_size(reported).width,
                    protocol_size(reported).height,
                )
            },
            None => status == ImageStatus::Unavailable && plan is Nothing,
        },
{
}

/// After warming, the status of every image of the slice that was not refused and
/// not cached before is that it loads.
pub proof fn warmed_images_load(
    runtime: &mut ImageRuntime,
    assets: &[ImageAsset],
    size: Size,
    i: int,
    status: ImageStatus,
)
    requires
        call_ensures(ImageRuntime::warm, (runtime, assets, size), ()),
        0 <= i < assets@.len(),
        call_ensures(ImageRuntime::status, (final(runtime), &assets@[i], size), status),
        old(runtime)@.backend != Backend::Disabled,
        old(runtime)@.worker is Some,
        !old(runtime)@.cache.contains_key(assets@[i].key_at(size)),
        forall|j: int|
            old(runtime)@.worker->0.sent.len() <= j < final(runtime)@.worker->0.sent.len() ==> (
            #[trigger] final(runtime)@.worker->0.sent[j]).accepted,
    ensures
        status == ImageStatus::Loading,
        final(runtime)@.cache.contains_key(assets@[i].key_at(size)),
{
    warming_asks_for_every_image(runtime, assets, size);
    let key = assets@[i].key_at(size);
    assert(final(runtime)@.cache.contains_key(key) || was_refused(
        final(runtime)@.worker->0.sent,
        old(runtime)@.worker->0.sent.len() as int,
        key,
    ));
}

/// After a clear every image is unavailable, and nothing is painted or pending,
/// until it is asked for again.
pub proof fn nothing_is_shown_after_a_clear(
    runtime: &mut ImageRuntime,
    asset: ImageAsset,
    area: Rect,
    status: ImageStatus,
    plan: RenderPlan<'_>,
    pending: bool,
)
    requires
        call_ensures(ImageRuntime::clear, (runtime,), ()),
        call_ensures(
            ImageRuntime::status,
            (final(runtime), &asset, Size { width: area.width, height: area.height }),
            status,
        ),
        call_ensures(ImageRuntime::render, (final(runtime), area, &asset), plan),
        call_ensures(ImageRuntime::has_pending, (final(runtime),), pending),
    ensures
        status == ImageStatus::Unavailable,
        plan is Nothing,
        !pending,
{
}

// When operations may be used.

/// Whatever was done with a runtime, everything can be done with it next: any image
/// can be asked for, looked up and painted anywhere, any result folded in. Only a
/// clear needs a generation that is still to come.
pub proof fn a_runtime_can_always_be_used(
    runtime: ImageRuntime,
    result: BuildResult,
    assets: &[ImageAsset],
    asset: ImageAsset,
    size: Size,
    area: Rect,
)
    requires
        runtime.wf(),
    ensures
        forall|r: &mut ImageRuntime| *r == runtime ==> #[trigger] call_requires(
            ImageRuntime::fold_result,
            (r, result),
        ),
        forall|r: &mut ImageRuntime| *r == runtime ==> #[trigger] call_requires(
            ImageRuntime::poll_results,
            (r,),
        ),
        forall|r: &mut ImageRuntime| *r == runtime ==> #[trigger] call_requires(
            ImageRuntime::start,
            (r, &asset, size),
        ),
        forall|r: &mut ImageRuntime| *r == runtime ==> #[trigger] call_requires(
            ImageRuntime::warm,
            (r, assets, size),
        ),
        forall|r: &mut ImageRuntime| *r == runtime && runtime@.generation < u64::MAX ==> #[trigger]
            call_requires(ImageRuntime::clear, (r,)),
        call_requires(ImageRuntime::enabled, (&runtime,)),
        call_requires(ImageRuntime::uses_graphics, (&runtime,)),
        call_requires(ImageRuntime::generation, (&runtime,)),
        call_requires(ImageRuntime::has_pending, (&runtime,)),
        call_requires(ImageRuntime::key, (&runtime, &asset, size)),
        call_requires(ImageRuntime::start_request, (&runtime, &asset, size)),
        call_requires(ImageRuntime::status, (&runtime, &asset, size)),
        call_requires(ImageRuntime::render, (&runtime, area, &asset)),
{
}

/// What sets a runtime up, detects and builds takes any input.
pub proof fn set_up_and_builds_take_any_input(
    backend: Backend,
    worker: Option<Worker>,
    queried: Result<Picker, Errors>,
    variables: (Option<String>, Option<String>),
    picker: Option<Picker>,
    used: Picker,
    mode: BuildMode,
    key: CacheKey,
    decoded: Option<DynamicImage>,
    drawn: Option<AsciiArt>,
    area: Rect,
    content: Size,
)
    ensures
        call_requires(ImageRuntime::new, (backend, worker)),
        call_requires(detect_picker, (queried, &variables.0, &variables.1)),
        call_requires(is_iterm2, (&variables.0, &variables.1)),
        call_requires(choose_backend, (picker,)),
        call_requires(decode_limits, (&used, &key)),
        call_requires(build_protocol, (&used, decoded, &key)),
        call_requires(BuildMode::build, (&mode, &key, decoded, drawn)),
        call_requires(viewer_image_size, (area,)),
        call_requires(checked_centered_rect, (area, content)),
{
}

/// A runtime stays usable through everything that changes it.
pub proof fn a_runtime_stays_usable(
    runtime: &mut ImageRuntime,
    result: BuildResult,
    changed: bool,
    assets: &[ImageAsset],
    asset: ImageAsset,
    size: Size,
)
    requires
        call_ensures(ImageRuntime::fold_result, (runtime, result), changed) || call_ensures(
            ImageRuntime::poll_results,
            (runtime,),
            changed,
        ) || call_ensures(ImageRuntime::start, (runtime, &asset, size), ()) || call_ensures(
            ImageRuntime::warm,
            (runtime, assets, size),
            (),
        ) || call_ensures(ImageRuntime::clear, (runtime,), ()),
    ensures
        final(runtime).wf(),
{
}

} // verus!
