//! Cell geometry: how large the viewer renders an image, and where.

use vstd::prelude::*;

verus! {

/// A number of columns and rows.
#[derive(Clone, Copy, Debug, PartialEq, Eq, Structural)]
pub struct Size {
    pub width: u16,
    pub height: u16,
}

/// A rectangle of cells; `x` and `y` are its top left corner.
#[derive(Clone, Copy, Debug, PartialEq, Eq, Structural)]
pub struct Rect {
    pub x: u16,
    pub y: u16,
    pub width: u16,
    pub height: u16,
}

/// `length` without the viewer's border of one cell on either side, but at
/// least one cell.
pub open spec fn inner_length(length: int) -> int {
    if length > 2 {
        length - 2
    } else {
        1
    }
}

/// How many cells to leave blank before a content of `content` cells so that it
/// stands centered in `available` cells.
pub open spec fn leading_margin(available: int, content: int) -> int {
    if content < available {
        (available - content) / 2
    } else {
        0
    }
}

pub open spec fn lesser(a: int, b: int) -> int {
    if a <= b {
        a
    } else {
        b
    }
}

/// `rect` is `content`, cut to the size of `area` and centered in it.
pub open spec fn is_centered(rect: Rect, area: Rect, content: Size) -> bool {
    &&& rect.x == area.x + leading_margin(area.width as int, content.width as int)
    &&& rect.y == area.y + leading_margin(area.height as int, content.height as int)
    &&& rect.width == lesser(content.width as int, area.width as int)
    &&& rect.height == lesser(content.height as int, area.height as int)
}

/// The corner of `content`, centered in `area`, has coordinates that a `u16`
/// can hold.
pub open spec fn origin_representable(area: Rect, content: Size) -> bool {
    &&& area.x + leading_margin(area.width as int, content.width as int) <= u16::MAX
    &&& area.y + leading_margin(area.height as int, content.height as int) <= u16::MAX
}

/// The cell size in which the viewer renders an image in `area`. Warming the
/// cache and viewing both use it, so that they ask for the same image.
pub fn viewer_image_size(area: Rect) -> (size: Size)
    ensures
        size.width == inner_length(area.width as int),
        size.height == inner_length(area.height as int),
{
    let width: u16 = area.width.saturating_sub(2);
    let height: u16 = area.height.saturating_sub(2);
    Size { width: at_least_one(width), height: at_least_one(height) }
}

/// `length`, or one cell where `length` is zero.
pub fn at_least_one(length: u16) -> (r: u16)
    ensures
        r == (if length == 0 { 1 } else { length as int }),
{
    if length == 0 {
        1
    } else {
        length
    }
}

/// Where `content` is painted in `area`: centered, and cut to the size of
/// `area` where it is larger.
pub fn centered_rect(area: Rect, content: Size) -> (rect: Rect)
    requires
        origin_representable(area, content),
    ensures
        is_centered(rect, area, content),
{
    Rect {
        x: area.x + area.width.saturating_sub(content.width) / 2,
        y: area.y + area.height.saturating_sub(content.height) / 2,
        width: if content.width <= area.width { content.width } else { area.width },
        height: if content.height <= area.height { content.height } else { area.height },
    }
}

/// [`centered_rect`] for any `area`: `None` where the corner's coordinates are
/// beyond what a `u16` can hold.
pub fn checked_centered_rect(area: Rect, content: Size) -> (rect: Option<Rect>)
    ensures
        rect is Some <==> origin_representable(area, content),
        rect matches Some(r) ==> is_centered(r, area, content),
{
    let left: u16 = area.width.saturating_sub(content.width) / 2;
    let top: u16 = area.height.saturating_sub(content.height) / 2;
    if left <= u16::MAX - area.x && top <= u16::MAX - area.y {
        Some(centered_rect(area, content))
    } else {
        None
    }
}

/// The viewer never renders an image into nothing, and leaves the border free
/// wherever the area has room for a border and an image.
pub proof fn viewer_size_leaves_the_border_free(length: int)
    requires
        0 <= length,
    ensures
        1 <= inner_length(length),
        3 <= length ==> inner_length(length) + 2 == length,
{
}

/// A centered rectangle never leaves its area, and the blank margins before and
/// behind it differ by at most one cell.
pub proof fn centered_rect_is_inside_and_balanced(rect: Rect, area: Rect, content: Size)
    requires
        is_centered(rect, area, content),
    ensures
        area.x <= rect.x,
        area.y <= rect.y,
        rect.x + rect.width <= area.x + area.width,
        rect.y + rect.height <= area.y + area.height,
        ({
            let left = rect.x - area.x;
            let right = (area.x + area.width) - (rect.x + rect.width);
            left <= right <= left + 1
        }),
        ({
            let top = rect.y - area.y;
            let bottom = (area.y + area.height) - (rect.y + rect.height);
            top <= bottom <= top + 1
        }),
{
}

/// A content that fits its area is painted whole: the rectangle has exactly the
/// content's size.
pub proof fn fitting_content_is_painted_whole(rect: Rect, area: Rect, content: Size)
    requires
        is_centered(rect, area, content),
        content.width <= area.width,
        content.height <= area.height,
    ensures
        rect.width == content.width,
        rect.height == content.height,
{
}

} // verus!
