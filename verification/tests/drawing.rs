use drawcore::color::{Color, Palette};
use drawcore::event::{DrawEvent, Point};
use drawcore::pointer::{PointerPhase, PointerSm};
use drawcore::render::{Renderer, SurfaceOp};

#[test]
fn pointer_down_move_up_draws_exactly_two_segments() {
    // down(10,10) -> move(20,20) -> up(30,30): two painted segments,
    // ending idle.
    let mut sm = PointerSm::new(Color::Black);
    let mut rend = Renderer::new();

    let (ops, out) = sm.on_down(&mut rend, Point::from_pixels(10, 10));
    assert_eq!(
        ops,
        vec![
            SurfaceOp::SetColor(Color::Black),
            SurfaceOp::BeginPath(Point::from_pixels(10, 10)),
        ]
    );
    assert_eq!(out, Some(DrawEvent { position: Point::from_pixels(10, 10), pressed: true }));

    let (ops, out) = sm.on_move(&mut rend, Point::from_pixels(20, 20));
    assert_eq!(
        ops,
        vec![
            SurfaceOp::SetColor(Color::Black),
            SurfaceOp::LineTo(Point::from_pixels(20, 20)),
            SurfaceOp::Stroke,
            SurfaceOp::BeginPath(Point::from_pixels(20, 20)),
        ]
    );
    assert_eq!(out, Some(DrawEvent { position: Point::from_pixels(20, 20), pressed: true }));

    let (ops, out) = sm.on_up(&mut rend, Point::from_pixels(30, 30));
    assert_eq!(
        ops,
        vec![
            SurfaceOp::SetColor(Color::Black),
            SurfaceOp::LineTo(Point::from_pixels(30, 30)),
            SurfaceOp::Stroke,
        ]
    );
    assert_eq!(out, Some(DrawEvent { position: Point::from_pixels(30, 30), pressed: false }));
    assert_eq!(sm.phase, PointerPhase::Idle);
    assert_eq!(rend.cursor, None);
}

#[test]
fn move_while_idle_paints_nothing_but_reports_position() {
    let mut sm = PointerSm::new(Color::Black);
    let mut rend = Renderer::new();
    let (ops, out) = sm.on_move(&mut rend, Point::from_pixels(5, 6));
    assert!(ops.is_empty());
    assert_eq!(out, Some(DrawEvent { position: Point::from_pixels(5, 6), pressed: false }));
    assert_eq!(rend.cursor, None);
}

#[test]
fn up_while_idle_is_inert() {
    let mut sm = PointerSm::new(Color::Black);
    let mut rend = Renderer::new();
    let (ops, out) = sm.on_up(&mut rend, Point::from_pixels(5, 6));
    assert!(ops.is_empty());
    assert_eq!(out, None);
    assert_eq!(sm.phase, PointerPhase::Idle);
}

#[test]
fn remote_sample_issues_the_same_calls_even_on_a_fresh_surface() {
    // The command list for a remote frame never depends on path state: a
    // first line-to on an empty path only places the cursor.
    let palette = Palette::five_color();
    let mut rend = Renderer::new();
    let p = Point::from_pixels(100, 100);
    let ops = rend.apply_remote(7, DrawEvent { position: p, pressed: true }, &palette);
    assert_eq!(
        ops,
        vec![
            SurfaceOp::SetColor(Color::MediumSeaGreen),
            SurfaceOp::LineTo(p),
            SurfaceOp::Stroke,
            SurfaceOp::BeginPath(p),
        ]
    );
    assert_eq!(rend.cursor, Some(p));
}

#[test]
fn same_remote_frame_issues_identical_calls() {
    // Delivered twice, in different path states, one frame yields the
    // same surface calls.
    let palette = Palette::five_color();
    let mut rend = Renderer::new();
    let e = DrawEvent { position: Point::from_pixels(50, 60), pressed: false };
    let first = rend.apply_remote(12, e, &palette);
    let second = rend.apply_remote(12, e, &palette);
    assert_eq!(first, second);
}

#[test]
fn remote_pressed_sample_continues_an_open_path() {
    let palette = Palette::five_color();
    let mut rend = Renderer::new();
    let p1 = Point::from_pixels(100, 100);
    let p2 = Point::from_pixels(110, 120);
    rend.apply_remote(7, DrawEvent { position: p1, pressed: true }, &palette);
    let ops = rend.apply_remote(7, DrawEvent { position: p2, pressed: true }, &palette);
    assert_eq!(
        ops,
        vec![
            SurfaceOp::SetColor(Color::MediumSeaGreen),
            SurfaceOp::LineTo(p2),
            SurfaceOp::Stroke,
            SurfaceOp::BeginPath(p2),
        ]
    );
    assert_eq!(rend.cursor, Some(p2));
}

#[test]
fn remote_released_sample_paints_final_segment_and_restarts_path() {
    // A released sample draws the final segment and then begins a new
    // path at its point, exactly like a pressed one.
    let palette = Palette::five_color();
    let mut rend = Renderer::new();
    let p1 = Point::from_pixels(100, 100);
    let p2 = Point::from_pixels(110, 120);
    rend.apply_remote(7, DrawEvent { position: p1, pressed: true }, &palette);
    let ops = rend.apply_remote(7, DrawEvent { position: p2, pressed: false }, &palette);
    assert_eq!(
        ops,
        vec![
            SurfaceOp::SetColor(Color::MediumSeaGreen),
            SurfaceOp::LineTo(p2),
            SurfaceOp::Stroke,
            SurfaceOp::BeginPath(p2),
        ]
    );
    assert_eq!(rend.cursor, Some(p2));
}

#[test]
fn remote_press_after_release_draws_from_the_release_point() {
    // The wire carries no distinct "pointer down", so a pressed sample
    // after a release draws from the release point.
    let palette = Palette::five_color();
    let mut rend = Renderer::new();
    let p1 = Point::from_pixels(100, 100);
    let p2 = Point::from_pixels(110, 120);
    rend.apply_remote(7, DrawEvent { position: p1, pressed: false }, &palette);
    let ops = rend.apply_remote(7, DrawEvent { position: p2, pressed: true }, &palette);
    assert_eq!(
        ops,
        vec![
            SurfaceOp::SetColor(Color::MediumSeaGreen),
            SurfaceOp::LineTo(p2),
            SurfaceOp::Stroke,
            SurfaceOp::BeginPath(p2),
        ]
    );
    assert_eq!(rend.cursor, Some(p2));
}
