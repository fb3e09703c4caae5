use pixel_canvas::canvas::{Canvas, WHITE};
use pixel_canvas::codec::PixelUpdate;

fn px(x: i32, y: i32, r: u8, g: u8, b: u8) -> PixelUpdate {
    PixelUpdate { x, y, r, g, b }
}

#[test]
fn new_canvas_is_white() {
    let c = Canvas::new();
    assert_eq!(c.get_pixel(0, 0), Some(WHITE));
    assert_eq!(c.get_pixel(639, 479), Some(WHITE));
    assert_eq!(c.get_pixel(640, 0), None);
    assert_eq!(c.get_pixel(0, -1), None);
    assert!(c.replay().is_empty());
}

#[test]
fn set_then_read() {
    let mut c = Canvas::new();
    c.set_pixel(&px(10, 20, 1, 2, 3));
    assert_eq!(c.get_pixel(10, 20), Some((1, 2, 3)));
    assert_eq!(c.get_pixel(20, 10), Some(WHITE));
    c.set_pixel(&px(639, 479, 4, 5, 6));
    assert_eq!(c.get_pixel(639, 479), Some((4, 5, 6)));
}

#[test]
fn out_of_range_is_a_no_op() {
    let mut c = Canvas::new();
    c.set_pixel(&px(640, 0, 0, 0, 0));
    c.set_pixel(&px(0, 480, 0, 0, 0));
    c.set_pixel(&px(-1, 5, 0, 0, 0));
    c.set_pixel(&px(5, -1, 0, 0, 0));
    assert!(c.replay().is_empty());
    assert_eq!(c.get_pixel(0, 0), Some(WHITE));
    assert_eq!(c.get_pixel(5, 0), Some(WHITE));
}

#[test]
fn applying_twice_is_applying_once() {
    let mut once = Canvas::new();
    once.set_pixel(&px(3, 4, 9, 9, 9));
    let mut twice = Canvas::new();
    twice.set_pixel(&px(3, 4, 9, 9, 9));
    twice.set_pixel(&px(3, 4, 9, 9, 9));
    assert_eq!(once.replay(), twice.replay());
    assert_eq!(twice.get_pixel(3, 4), Some((9, 9, 9)));
}

#[test]
fn replay_lists_painted_cells_in_row_order() {
    let mut c = Canvas::new();
    c.set_pixel(&px(5, 1, 1, 1, 1));
    c.set_pixel(&px(2, 0, 2, 2, 2));
    c.set_pixel(&px(7, 0, 3, 3, 3));
    c.set_pixel(&px(7, 0, 4, 4, 4));
    c.set_pixel(&px(100, 100, 255, 255, 255));
    assert_eq!(
        c.replay(),
        vec![px(2, 0, 2, 2, 2), px(7, 0, 4, 4, 4), px(5, 1, 1, 1, 1)]
    );
}

#[test]
fn repainting_white_drops_a_cell_from_replay() {
    let mut c = Canvas::new();
    c.set_pixel(&px(1, 1, 0, 0, 0));
    c.set_pixel(&px(1, 1, 255, 255, 255));
    assert!(c.replay().is_empty());
}

#[test]
fn disjoint_updates_all_show() {
    let us = [
        px(0, 0, 1, 0, 0),
        px(639, 0, 0, 1, 0),
        px(0, 479, 0, 0, 1),
        px(320, 240, 5, 5, 5),
    ];
    let mut forward = Canvas::new();
    for u in us.iter() {
        forward.set_pixel(u);
    }
    let mut backward = Canvas::new();
    for u in us.iter().rev() {
        backward.set_pixel(u);
    }
    for u in us.iter() {
        assert_eq!(forward.get_pixel(u.x, u.y), Some((u.r, u.g, u.b)));
        assert_eq!(backward.get_pixel(u.x, u.y), Some((u.r, u.g, u.b)));
    }
    assert_eq!(forward.replay(), backward.replay());
}

#[test]
fn snapshot_is_point_in_time() {
    let mut c = Canvas::new();
    c.set_pixel(&px(1, 2, 3, 4, 5));
    let snap = c.snapshot();
    c.set_pixel(&px(1, 2, 6, 7, 8));
    c.set_pixel(&px(9, 9, 0, 0, 0));
    assert_eq!(snap.get_pixel(1, 2), Some((3, 4, 5)));
    assert_eq!(snap.get_pixel(9, 9), Some(WHITE));
    assert_eq!(c.get_pixel(1, 2), Some((6, 7, 8)));
}
