use pixel_canvas::canvas::Canvas;
use pixel_canvas::codec::{decode, encode, PixelUpdate};
use pixel_canvas::hub::Hub;
use pixel_canvas::session::{offers_subprotocol, Frame, Session, SessionError, SessionState, SUBPROTOCOL};

fn offered() -> Vec<String> {
    vec!["chat".to_string(), SUBPROTOCOL.to_string()]
}

fn drain_all(s: &mut Session) -> Vec<Frame> {
    let mut out = Vec::new();
    while let Some(f) = s.next_outbound() {
        out.push(f);
    }
    out
}

#[test]
fn handshake_needs_the_subprotocol() {
    assert!(offers_subprotocol(&offered()));
    assert!(!offers_subprotocol(&vec![]));
    assert!(!offers_subprotocol(&vec!["pixel".to_string(), "canvas".to_string()]));
    let canvas = Canvas::new();
    let mut hub = Hub::new();
    let r = Session::accept(&vec!["chat".to_string()], &canvas, &mut hub);
    assert_eq!(r.err(), Some(SessionError::MissingSubprotocol));
    let s = Session::accept(&offered(), &canvas, &mut hub).unwrap();
    assert_eq!(s.state(), SessionState::Open);
    assert!(!s.is_shutting_down());
    assert_eq!(s.pending(), 0);
    assert!(hub.is_registered(s.subscriber()));
}

#[test]
fn paint_is_broadcast_and_replayed() {
    let mut canvas = Canvas::new();
    let mut hub = Hub::new();
    let mut a = Session::accept(&offered(), &canvas, &mut hub).unwrap();
    let mut b = Session::accept(&offered(), &canvas, &mut hub).unwrap();
    let red = PixelUpdate { x: 10, y: 10, r: 255, g: 0, b: 0 };
    a.on_frame(Frame::Binary(vec![10, 0, 0, 0, 10, 0, 0, 0, 255, 0, 0]), &mut canvas, &mut hub);
    assert_eq!(canvas.get_pixel(10, 10), Some((255, 0, 0)));

    b.relay(&mut hub);
    let got = drain_all(&mut b);
    assert_eq!(got.len(), 1);
    match &got[0] {
        Frame::Binary(bytes) => assert_eq!(decode(bytes), Ok(red)),
        other => panic!("unexpected frame {:?}", other),
    }

    let mut c = Session::accept(&offered(), &canvas, &mut hub).unwrap();
    let replay = drain_all(&mut c);
    assert_eq!(replay, vec![Frame::Binary(encode(&red))]);
}

#[test]
fn ping_gets_pong_with_same_payload() {
    let mut canvas = Canvas::new();
    let mut hub = Hub::new();
    let mut s = Session::accept(&offered(), &canvas, &mut hub).unwrap();
    s.on_frame(Frame::Ping(b"abc".to_vec()), &mut canvas, &mut hub);
    assert_eq!(drain_all(&mut s), vec![Frame::Pong(b"abc".to_vec())]);
    assert!(canvas.replay().is_empty());
    assert_eq!(s.state(), SessionState::Open);
}

#[test]
fn close_ends_the_session() {
    let mut canvas = Canvas::new();
    let mut hub = Hub::new();
    let mut s = Session::accept(&offered(), &canvas, &mut hub).unwrap();
    let mut other = Session::accept(&offered(), &canvas, &mut hub).unwrap();
    let id = s.subscriber();
    s.on_frame(Frame::Close, &mut canvas, &mut hub);
    assert_eq!(s.state(), SessionState::Closing);
    assert!(s.is_shutting_down());
    assert!(!s.sender_done());
    assert_eq!(drain_all(&mut s), vec![Frame::Close]);
    assert!(s.sender_done());

    other.on_frame(
        Frame::Binary(encode(&PixelUpdate { x: 1, y: 1, r: 0, g: 0, b: 0 })),
        &mut canvas,
        &mut hub,
    );
    s.relay(&mut hub);
    assert_eq!(s.pending(), 0);
    s.finish(&mut hub);
    assert_eq!(s.state(), SessionState::Closed);
    assert!(!hub.is_registered(id));
    other.on_frame(
        Frame::Binary(encode(&PixelUpdate { x: 2, y: 2, r: 0, g: 0, b: 0 })),
        &mut canvas,
        &mut hub,
    );
    s.relay(&mut hub);
    assert_eq!(s.next_outbound(), None);
    s.on_frame(Frame::Ping(vec![1]), &mut canvas, &mut hub);
    assert_eq!(s.pending(), 0);
}

#[test]
fn transport_error_starts_closing() {
    let canvas = Canvas::new();
    let mut hub = Hub::new();
    let mut s = Session::accept(&offered(), &canvas, &mut hub).unwrap();
    s.begin_closing();
    assert_eq!(s.state(), SessionState::Closing);
    assert_eq!(drain_all(&mut s), vec![Frame::Close]);
}

#[test]
fn bad_frames_change_nothing() {
    let mut canvas = Canvas::new();
    let mut hub = Hub::new();
    let mut s = Session::accept(&offered(), &canvas, &mut hub).unwrap();
    s.on_frame(Frame::Binary(vec![1, 2, 3]), &mut canvas, &mut hub);
    s.on_frame(
        Frame::Binary(encode(&PixelUpdate { x: 640, y: 0, r: 0, g: 0, b: 0 })),
        &mut canvas,
        &mut hub,
    );
    s.on_frame(
        Frame::Binary(encode(&PixelUpdate { x: 0, y: -1, r: 0, g: 0, b: 0 })),
        &mut canvas,
        &mut hub,
    );
    assert!(canvas.replay().is_empty());
    s.relay(&mut hub);
    assert_eq!(s.pending(), 0);
    assert_eq!(s.state(), SessionState::Open);
}

#[test]
fn replay_precedes_relayed_updates() {
    let mut canvas = Canvas::new();
    let mut hub = Hub::new();
    let mut a = Session::accept(&offered(), &canvas, &mut hub).unwrap();
    let first = PixelUpdate { x: 0, y: 1, r: 1, g: 1, b: 1 };
    a.on_frame(Frame::Binary(encode(&first)), &mut canvas, &mut hub);
    let mut b = Session::accept(&offered(), &canvas, &mut hub).unwrap();
    let second = PixelUpdate { x: 3, y: 0, r: 2, g: 2, b: 2 };
    a.on_frame(Frame::Binary(encode(&second)), &mut canvas, &mut hub);
    b.relay(&mut hub);
    assert_eq!(
        drain_all(&mut b),
        vec![Frame::Binary(encode(&first)), Frame::Binary(encode(&second))]
    );
}
