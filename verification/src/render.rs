//! The incremental stroke renderer. It owns the path state explicitly —
//! the current path cursor — instead of leaning on a drawing surface's
//! hidden one, emits surface commands for every change, and keeps a ghost
//! record of every segment it has painted.

use vstd::prelude::*;

use crate::color::{Color, Palette};
use crate::event::{DrawEvent, Point};

verus! {

/// One painted stroke segment.
#[derive(Clone, Copy, Debug, PartialEq, Eq, Structural)]
pub struct Segment {
    pub from: Point,
    pub to: Point,
}

/// One command for the drawing surface: the whole capability set the core
/// depends on.
#[derive(Clone, Copy, Debug, PartialEq, Eq, Structural)]
pub enum SurfaceOp {
    /// Set the active stroke color.
    SetColor(Color),
    /// Open a fresh path with its cursor at the point.
    BeginPath(Point),
    /// Extend the open path to the point; with no point on the path yet,
    /// this only places the cursor there.
    LineTo(Point),
    /// Paint the open path.
    Stroke,
}

/// The renderer: the open path's cursor, if any, and the ghost history of
/// painted segments.
pub struct Renderer {
    pub cursor: Option<Point>,
    pub segments: Ghost<Seq<Segment>>,
}

/// How one remote sample changes the renderer. Remote handling is keyed on
/// the sample alone, never on path state: every sample draws a segment
/// from the path's previous point — when there is one — and begins a new
/// path at the sample's point, whatever the pressed flag says. (The wire
/// carries no distinct "pointer down" signal, so a remote press and a
/// remote move render identically, and a released sample still leaves the
/// cursor at its point.) The command list is the same four calls for every
/// sample, so one frame always issues identical surface calls.
pub open spec fn remote_applied(
    pre: Renderer,
    post: Renderer,
    stroke_color: Color,
    e: DrawEvent,
    ops: Seq<SurfaceOp>,
) -> bool {
    &&& post.cursor == Some(e.position)
    &&& ops == seq![
        SurfaceOp::SetColor(stroke_color),
        SurfaceOp::LineTo(e.position),
        SurfaceOp::Stroke,
        SurfaceOp::BeginPath(e.position),
    ]
    &&& post.segments@ == match pre.cursor {
        Some(q) => pre.segments@.push(Segment { from: q, to: e.position }),
        None => pre.segments@,
    }
}

/// How a mid-stroke local sample changes the renderer: paint a segment
/// from the open path's point, then restart the path at the sample's
/// point. With no open path, only open one there.
pub open spec fn local_continued(
    pre: Renderer,
    post: Renderer,
    stroke_color: Color,
    p: Point,
    ops: Seq<SurfaceOp>,
) -> bool {
    &&& post.cursor == Some(p)
    &&& match pre.cursor {
        Some(q) => post.segments@ == pre.segments@.push(Segment { from: q, to: p }) && ops
            == seq![
            SurfaceOp::SetColor(stroke_color),
            SurfaceOp::LineTo(p),
            SurfaceOp::Stroke,
            SurfaceOp::BeginPath(p),
        ],
        None => post.segments@ == pre.segments@ && ops == seq![
            SurfaceOp::SetColor(stroke_color),
            SurfaceOp::BeginPath(p),
        ],
    }
}

/// How a local release changes the renderer: paint the final segment to
/// the release point and close the path. With no open path there is
/// nothing to paint or close.
pub open spec fn local_ended(
    pre: Renderer,
    post: Renderer,
    stroke_color: Color,
    p: Point,
    ops: Seq<SurfaceOp>,
) -> bool {
    &&& post.cursor == None::<Point>
    &&& match pre.cursor {
        Some(q) => post.segments@ == pre.segments@.push(Segment { from: q, to: p }) && ops
            == seq![SurfaceOp::SetColor(stroke_color), SurfaceOp::LineTo(p), SurfaceOp::Stroke],
        None => post.segments@ == pre.segments@ && ops == seq![
            SurfaceOp::SetColor(stroke_color),
        ],
    }
}

/// One frame, one command list: the surface commands for a remote sample
/// depend only on the sender's color and the sample itself, never on path
/// state, so the same frame always issues identical surface calls — in
/// any interleaving with other traffic.
pub proof fn lemma_remote_ops_deterministic(
    pre1: Renderer,
    post1: Renderer,
    pre2: Renderer,
    post2: Renderer,
    stroke_color: Color,
    e: DrawEvent,
    ops1: Seq<SurfaceOp>,
    ops2: Seq<SurfaceOp>,
)
    requires
        remote_applied(pre1, post1, stroke_color, e, ops1),
        remote_applied(pre2, post2, stroke_color, e, ops2),
    ensures
        ops1 == ops2,
{
}

impl Renderer {
    /// A fresh surface: no open path, nothing painted.
    pub fn new() -> (r: Renderer)
        ensures
            r.cursor == None::<Point>,
            r.segments@ == Seq::<Segment>::empty(),
    {
        Renderer { cursor: None, segments: Ghost(Seq::empty()) }
    }

    /// Begin a stroke: set the color and open a fresh path at `p`. Nothing
    /// is painted yet.
    pub fn begin_stroke(&mut self, color: Color, p: Point) -> (ops: Vec<SurfaceOp>)
        ensures
            final(self).cursor == Some(p),
            final(self).segments@ == old(self).segments@,
            ops@ == seq![SurfaceOp::SetColor(color), SurfaceOp::BeginPath(p)],
    {
        self.cursor = Some(p);
        let mut ops: Vec<SurfaceOp> = Vec::new();
        ops.push(SurfaceOp::SetColor(color));
        ops.push(SurfaceOp::BeginPath(p));
        proof {
            assert(ops@ =~= seq![SurfaceOp::SetColor(color), SurfaceOp::BeginPath(p)]);
        }
        ops
    }

    /// Continue a stroke: paint a segment from the cursor to `p`, then
    /// restart the path at `p`, so no path grows without bound. With no
    /// open path, just open one at `p`.
    pub fn continue_stroke(&mut self, p: Point) -> (ops: Vec<SurfaceOp>)
        ensures
            final(self).cursor == Some(p),
            match old(self).cursor {
                Some(q) => final(self).segments@ == old(self).segments@.push(
                    Segment { from: q, to: p },
                ) && ops@ == seq![
                    SurfaceOp::LineTo(p),
                    SurfaceOp::Stroke,
                    SurfaceOp::BeginPath(p),
                ],
                None => final(self).segments@ == old(self).segments@ && ops@ == seq![
                    SurfaceOp::BeginPath(p),
                ],
            },
    {
        let mut ops: Vec<SurfaceOp> = Vec::new();
        match self.cursor {
            Some(q) => {
                ops.push(SurfaceOp::LineTo(p));
                ops.push(SurfaceOp::Stroke);
                ops.push(SurfaceOp::BeginPath(p));
                proof {
                    self.segments@ = self.segments@.push(Segment { from: q, to: p });
                }
                proof {
                    assert(ops@ =~= seq![
                        SurfaceOp::LineTo(p),
                        SurfaceOp::Stroke,
                        SurfaceOp::BeginPath(p),
                    ]);
                }
            },
            None => {
                ops.push(SurfaceOp::BeginPath(p));
                proof {
                    assert(ops@ =~= seq![SurfaceOp::BeginPath(p)]);
                }
            },
        }
        self.cursor = Some(p);
        ops
    }

    /// End a stroke: paint the final segment to `p` and close the path.
    /// With no open path there is nothing to paint or close.
    pub fn end_stroke(&mut self, p: Point) -> (ops: Vec<SurfaceOp>)
        ensures
            final(self).cursor == None::<Point>,
            match old(self).cursor {
                Some(q) => final(self).segments@ == old(self).segments@.push(
                    Segment { from: q, to: p },
                ) && ops@ == seq![SurfaceOp::LineTo(p), SurfaceOp::Stroke],
                None => final(self).segments@ == old(self).segments@ && ops@ == Seq::<
                    SurfaceOp,
                >::empty(),
            },
    {
        let mut ops: Vec<SurfaceOp> = Vec::new();
        match self.cursor {
            Some(q) => {
                ops.push(SurfaceOp::LineTo(p));
                ops.push(SurfaceOp::Stroke);
                proof {
                    self.segments@ = self.segments@.push(Segment { from: q, to: p });
                }
                proof {
                    assert(ops@ =~= seq![SurfaceOp::LineTo(p), SurfaceOp::Stroke]);
                }
            },
            None => {},
        }
        self.cursor = None;
        ops
    }

    /// Apply one decoded remote sample: color by the sender's identity,
    /// then draw-and-restart keyed on the sample alone (`remote_applied`).
    /// A previous point on the path yields a painted segment; either way
    /// the path goes on from the sample's point, so a later pressed sample
    /// draws from here.
    pub fn apply_remote(&mut self, id: u32, e: DrawEvent, palette: &Palette) -> (ops: Vec<
        SurfaceOp,
    >)
        requires
            palette.wf(),
        ensures
            remote_applied(
                *old(self),
                *final(self),
                palette.spec_color_for(id as int),
                e,
                ops@,
            ),
    {
        let mut ops: Vec<SurfaceOp> = Vec::new();
        ops.push(SurfaceOp::SetColor(palette.color_for(id)));
        ops.push(SurfaceOp::LineTo(e.position));
        ops.push(SurfaceOp::Stroke);
        ops.push(SurfaceOp::BeginPath(e.position));
        proof {
            match self.cursor {
                Some(q) => {
                    self.segments@ = self.segments@.push(Segment { from: q, to: e.position });
                },
                None => {},
            }
            assert(ops@ =~= seq![
                SurfaceOp::SetColor(palette.spec_color_for(id as int)),
                SurfaceOp::LineTo(e.position),
                SurfaceOp::Stroke,
                SurfaceOp::BeginPath(e.position),
            ]);
        }
        self.cursor = Some(e.position);
        ops
    }

    /// Apply one local sample. Whether it starts a stroke is the pointer
    /// state machine's call, not the event's: a starting sample opens a
    /// path without painting; any other paints by its pressed flag —
    /// pressed continues the stroke, released ends it and closes the path.
    pub fn apply_local(&mut self, e: DrawEvent, color: Color, starting: bool) -> (ops: Vec<
        SurfaceOp,
    >)
        ensures
            starting ==> final(self).cursor == Some(e.position) && final(self).segments@ == old(
                self,
            ).segments@ && ops@ == seq![SurfaceOp::SetColor(color), SurfaceOp::BeginPath(e.position)],
            !starting && e.pressed ==> local_continued(
                *old(self),
                *final(self),
                color,
                e.position,
                ops@,
            ),
            !starting && !e.pressed ==> local_ended(
                *old(self),
                *final(self),
                color,
                e.position,
                ops@,
            ),
    {
        if starting {
            self.begin_stroke(color, e.position)
        } else {
            let mut ops: Vec<SurfaceOp> = Vec::new();
            ops.push(SurfaceOp::SetColor(color));
            let mut rest = if e.pressed {
                self.continue_stroke(e.position)
            } else {
                self.end_stroke(e.position)
            };
            ops.append(&mut rest);
            proof {
                match old(self).cursor {
                    Some(q) => {
                        if e.pressed {
                            assert(ops@ =~= seq![
                                SurfaceOp::SetColor(color),
                                SurfaceOp::LineTo(e.position),
                                SurfaceOp::Stroke,
                                SurfaceOp::BeginPath(e.position),
                            ]);
                        } else {
                            assert(ops@ =~= seq![
                                SurfaceOp::SetColor(color),
                                SurfaceOp::LineTo(e.position),
                                SurfaceOp::Stroke,
                            ]);
                        }
                    },
                    None => {
                        if e.pressed {
                            assert(ops@ =~= seq![
                                SurfaceOp::SetColor(color),
                                SurfaceOp::BeginPath(e.position),
                            ]);
                        } else {
                            assert(ops@ =~= seq![SurfaceOp::SetColor(color)]);
                        }
                    },
                }
            }
            ops
        }
    }
}

} // verus!
