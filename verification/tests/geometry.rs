use notema_image::geometry::{
    at_least_one, centered_rect, checked_centered_rect, viewer_image_size, Rect, Size,
};

fn rect(x: u16, y: u16, width: u16, height: u16) -> Rect {
    Rect { x, y, width, height }
}

fn size(width: u16, height: u16) -> Size {
    Size { width, height }
}

#[test]
fn viewer_size_leaves_a_border() {
    assert_eq!(viewer_image_size(rect(4, 9, 80, 24)), size(78, 22));
    assert_eq!(viewer_image_size(rect(0, 0, u16::MAX, 3)), size(65533, 1));
}

#[test]
fn viewer_size_is_at_least_one_cell() {
    for length in 0..4 {
        assert_eq!(viewer_image_size(rect(0, 0, length, length)), size(1, 1));
    }
    assert_eq!(viewer_image_size(rect(0, 0, 4, 0)), size(2, 1));
}

#[test]
fn lengths_are_raised_to_one() {
    assert_eq!(at_least_one(0), 1);
    assert_eq!(at_least_one(1), 1);
    assert_eq!(at_least_one(u16::MAX), u16::MAX);
}

#[test]
fn smaller_content_is_centered() {
    assert_eq!(
        centered_rect(rect(10, 5, 20, 10), size(7, 4)),
        rect(16, 8, 7, 4)
    );
}

#[test]
fn larger_content_is_cut_to_the_area() {
    assert_eq!(
        centered_rect(rect(10, 5, 20, 10), size(21, 30)),
        rect(10, 5, 20, 10)
    );
    assert_eq!(
        centered_rect(rect(10, 5, 20, 10), size(8, 30)),
        rect(16, 5, 8, 10)
    );
}

#[test]
fn margins_differ_by_at_most_one() {
    for content in 0..21 {
        let area = rect(3, 7, 20, 20);
        let placed = centered_rect(area, size(content, content));
        let left = placed.x - area.x;
        let right = (area.x + area.width) - (placed.x + placed.width);
        assert!(left == right || left + 1 == right);
        assert_eq!(placed.y - area.y, left);
        assert_eq!((placed.width, placed.height), (content, content));
    }
}

#[test]
fn a_corner_out_of_range_has_no_rectangle() {
    let far = rect(65530, 0, 20, 10);
    assert_eq!(
        checked_centered_rect(far, size(10, 10)),
        Some(rect(65535, 0, 10, 10))
    );
    assert_eq!(checked_centered_rect(far, size(8, 10)), None);
    assert_eq!(checked_centered_rect(rect(0, 65530, 10, 20), size(10, 8)), None);
    assert_eq!(
        checked_centered_rect(rect(65535, 65535, 10, 10), size(10, 10)),
        Some(rect(65535, 65535, 10, 10))
    );
}
