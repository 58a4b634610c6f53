use drawcore::codec::ProtocolError;
use drawcore::color::{Color, Palette};
use drawcore::connection::{ConnState, Connection};
use drawcore::event::{CanvasDims, Point};
use drawcore::render::SurfaceOp;

fn open_connection() -> Connection {
    let mut conn = Connection::new(
        Palette::five_color(),
        CanvasDims { width: 640, height: 480 },
        Color::Black,
    );
    assert_eq!(conn.state, ConnState::Connecting);
    let hail = conn.on_open();
    assert_eq!(hail, b"OPENED".to_vec());
    assert_eq!(conn.state, ConnState::Open);
    conn
}

#[test]
fn good_text_frame_reaches_the_renderer() {
    let mut conn = open_connection();
    let ops = conn.on_text(b"<User#92>: 10,-30,true").expect("valid frame");
    let p = Point::from_pixels(330, 210);
    assert_eq!(
        ops,
        vec![
            SurfaceOp::SetColor(Color::MediumSeaGreen),
            SurfaceOp::LineTo(p),
            SurfaceOp::Stroke,
            SurfaceOp::BeginPath(p),
        ]
    );
    assert_eq!(conn.renderer.cursor, Some(p));
}

#[test]
fn remote_release_does_not_interrupt_a_local_stroke() {
    // A released remote frame arriving mid-stroke leaves the path open at
    // its own point, so the next local move still paints.
    let mut conn = open_connection();
    conn.on_pointer_down(Point::from_pixels(10, 10));
    let ops = conn.on_text(b"<User#5>: 0,0,false").expect("valid frame");
    assert_eq!(ops.len(), 4);
    assert!(conn.renderer.cursor.is_some());
    let (ops, _msg) = conn.on_pointer_move(Point::from_pixels(20, 20));
    assert!(ops.contains(&SurfaceOp::LineTo(Point::from_pixels(20, 20))));
    assert!(ops.contains(&SurfaceOp::Stroke));
}

#[test]
fn bad_text_frame_changes_nothing() {
    let mut conn = open_connection();
    conn.on_text(b"<User#92>: 10,-30,true").expect("valid frame");
    let before = conn.renderer.cursor;
    assert_eq!(conn.on_text(b"garbage"), Err(ProtocolError::Malformed));
    assert_eq!(conn.on_text(b"<User#>: 1,2,true"), Err(ProtocolError::BadUserId));
    assert_eq!(conn.on_text(b"<User#1>: 1,x,true"), Err(ProtocolError::BadField));
    assert_eq!(conn.renderer.cursor, before);
    assert_eq!(conn.state, ConnState::Open);
}

#[test]
fn binary_frame_never_draws() {
    let mut conn = open_connection();
    conn.on_text(b"<User#92>: 10,-30,true").expect("valid frame");
    let before = conn.renderer.cursor;
    let ops = conn.on_binary(&[1, 2, 3, 4]);
    assert!(ops.is_empty());
    assert_eq!(conn.renderer.cursor, before);
    assert_eq!(conn.state, ConnState::Open);
}

#[test]
fn error_and_close_are_terminal_and_leave_the_drawing() {
    let mut conn = open_connection();
    conn.on_text(b"<User#92>: 10,-30,true").expect("valid frame");
    let before = conn.renderer.cursor;
    conn.on_error();
    assert_eq!(conn.state, ConnState::Errored);
    assert_eq!(conn.renderer.cursor, before);

    let mut conn2 = open_connection();
    conn2.on_close();
    assert_eq!(conn2.state, ConnState::Closed);
}

#[test]
fn pointer_stroke_sends_recentered_wire_messages() {
    let mut conn = open_connection();

    let (ops, msg) = conn.on_pointer_down(Point::from_pixels(10, 10));
    assert_eq!(ops.len(), 2);
    assert_eq!(msg, Some(b"-310,-230,true".to_vec()));

    let (ops, msg) = conn.on_pointer_move(Point::from_pixels(20, 20));
    assert_eq!(ops.len(), 4);
    assert_eq!(msg, Some(b"-300,-220,true".to_vec()));

    let (ops, msg) = conn.on_pointer_up(Point::from_pixels(30, 30));
    assert_eq!(ops.len(), 3);
    assert_eq!(msg, Some(b"-290,-210,false".to_vec()));
}

#[test]
fn idle_motion_still_reports_the_cursor() {
    let mut conn = open_connection();
    let (ops, msg) = conn.on_pointer_move(Point::from_pixels(320, 240));
    assert!(ops.is_empty());
    assert_eq!(msg, Some(b"0,0,false".to_vec()));
}
