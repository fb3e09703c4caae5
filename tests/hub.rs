use pixel_canvas::codec::PixelUpdate;
use pixel_canvas::hub::{Hub, QUEUE_CAP};

fn px(x: i32, y: i32) -> PixelUpdate {
    PixelUpdate { x, y, r: 1, g: 2, b: 3 }
}

#[test]
fn every_subscriber_gets_a_copy() {
    let mut h = Hub::new();
    let a = h.register().unwrap();
    let b = h.register().unwrap();
    assert_ne!(a, b);
    h.publish(&px(1, 1));
    h.publish(&px(2, 2));
    assert_eq!(h.drain(a), vec![px(1, 1), px(2, 2)]);
    assert_eq!(h.drain(b), vec![px(1, 1), px(2, 2)]);
    assert!(h.drain(a).is_empty());
}

#[test]
fn late_subscriber_misses_earlier_events() {
    let mut h = Hub::new();
    let early = h.register().unwrap();
    h.publish(&px(1, 1));
    let late = h.register().unwrap();
    assert!(h.drain(late).is_empty());
    h.publish(&px(2, 2));
    assert_eq!(h.drain(late), vec![px(2, 2)]);
    assert_eq!(h.drain(early), vec![px(1, 1), px(2, 2)]);
}

#[test]
fn full_queue_drops_oldest() {
    let mut h = Hub::new();
    let a = h.register().unwrap();
    let n = QUEUE_CAP as i32 + 3;
    for i in 0..n {
        h.publish(&px(i, 0));
    }
    let got = h.drain(a);
    assert_eq!(got.len(), QUEUE_CAP);
    assert_eq!(got[0], px(3, 0));
    assert_eq!(got[QUEUE_CAP - 1], px(n - 1, 0));
}

#[test]
fn unregistered_subscriber_receives_nothing() {
    let mut h = Hub::new();
    let a = h.register().unwrap();
    let b = h.register().unwrap();
    assert!(h.unregister(a));
    assert!(!h.unregister(a));
    assert!(!h.is_registered(a));
    assert!(h.is_registered(b));
    h.publish(&px(4, 4));
    assert!(h.drain(a).is_empty());
    assert_eq!(h.drain(b), vec![px(4, 4)]);
}
