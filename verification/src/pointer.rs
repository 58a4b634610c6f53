//! The pointer state machine: one owned object holds the pressed state
//! that raw input handlers would otherwise share ad hoc, turns down, move
//! and up samples into renderer calls, and emits the outbound samples
//! peers need.

use vstd::prelude::*;

use crate::color::Color;
use crate::event::{DrawEvent, Point};
use crate::render::{local_continued, local_ended, Renderer, SurfaceOp};

verus! {

/// The pointer is idle or mid-stroke.
#[derive(Clone, Copy, Debug, PartialEq, Eq, Structural)]
pub enum PointerPhase {
    Idle,
    Drawing,
}

/// The per-client pointer state machine, with the fixed color the client
/// draws its own strokes in.
pub struct PointerSm {
    pub phase: PointerPhase,
    pub self_color: Color,
}

impl PointerSm {
    /// A fresh pointer: idle, drawing itself in `self_color`.
    pub fn new(self_color: Color) -> (r: PointerSm)
        ensures
            r.phase == PointerPhase::Idle,
            r.self_color == self_color,
    {
        PointerSm { phase: PointerPhase::Idle, self_color }
    }

    /// Pointer pressed at `p`. From idle: begin a stroke — color, fresh
    /// path, no paint — move to drawing, and emit a pressed sample. A
    /// repeated press changes nothing and emits nothing.
    pub fn on_down(&mut self, rend: &mut Renderer, p: Point) -> (r: (Vec<SurfaceOp>, Option<
        DrawEvent,
    >))
        ensures
            final(self).self_color == old(self).self_color,
            old(self).phase == PointerPhase::Idle ==> final(self).phase == PointerPhase::Drawing
                && final(rend).cursor == Some(p) && final(rend).segments@ == old(rend).segments@
                && r.0@ == seq![
                SurfaceOp::SetColor(old(self).self_color),
                SurfaceOp::BeginPath(p),
            ] && r.1 == Some(DrawEvent { position: p, pressed: true }),
            old(self).phase == PointerPhase::Drawing ==> *final(self) == *old(self) && *final(rend)
                == *old(rend) && r.0@ == Seq::<SurfaceOp>::empty() && r.1 == None::<DrawEvent>,
    {
        match self.phase {
            PointerPhase::Idle => {
                let ops = rend.begin_stroke(self.self_color, p);
                self.phase = PointerPhase::Drawing;
                (ops, Some(DrawEvent { position: p, pressed: true }))
            },
            PointerPhase::Drawing => (Vec::new(), None),
        }
    }

    /// Pointer moved to `p`. While drawing: paint the segment and restart
    /// the path. Always emit a sample carrying the current pressed state,
    /// so peers can track the cursor even while it is up.
    pub fn on_move(&mut self, rend: &mut Renderer, p: Point) -> (r: (Vec<SurfaceOp>, Option<
        DrawEvent,
    >))
        ensures
            *final(self) == *old(self),
            r.1 == Some(
                DrawEvent { position: p, pressed: old(self).phase == PointerPhase::Drawing },
            ),
            old(self).phase == PointerPhase::Drawing ==> local_continued(
                *old(rend),
                *final(rend),
                old(self).self_color,
                p,
                r.0@,
            ),
            old(self).phase == PointerPhase::Idle ==> *final(rend) == *old(rend) && r.0@ == Seq::<
                SurfaceOp,
            >::empty(),
    {
        match self.phase {
            PointerPhase::Drawing => {
                let ops = rend.apply_local(
                    DrawEvent { position: p, pressed: true },
                    self.self_color,
                    false,
                );
                (ops, Some(DrawEvent { position: p, pressed: true }))
            },
            PointerPhase::Idle => (Vec::new(), Some(DrawEvent { position: p, pressed: false })),
        }
    }

    /// Pointer released at `p`. From drawing: paint the final segment,
    /// close the path, return to idle, and emit a released sample. A
    /// release while idle changes nothing and emits nothing.
    pub fn on_up(&mut self, rend: &mut Renderer, p: Point) -> (r: (Vec<SurfaceOp>, Option<
        DrawEvent,
    >))
        ensures
            final(self).self_color == old(self).self_color,
            final(self).phase == PointerPhase::Idle,
            old(self).phase == PointerPhase::Drawing ==> local_ended(
                *old(rend),
                *final(rend),
                old(self).self_color,
                p,
                r.0@,
            ) && r.1 == Some(DrawEvent { position: p, pressed: false }),
            old(self).phase == PointerPhase::Idle ==> *final(rend) == *old(rend) && r.0@ == Seq::<
                SurfaceOp,
            >::empty() && r.1 == None::<DrawEvent>,
    {
        match self.phase {
            PointerPhase::Drawing => {
                let ops = rend.apply_local(
                    DrawEvent { position: p, pressed: false },
                    self.self_color,
                    false,
                );
                self.phase = PointerPhase::Idle;
                (ops, Some(DrawEvent { position: p, pressed: false }))
            },
            PointerPhase::Idle => (Vec::new(), None),
        }
    }
}

} // verus!
