//! The connection manager: one instance owns the socket lifecycle, the
//! pointer state machine, the renderer, the palette and the canvas
//! dimensions, and moves data between them and a message transport. The
//! transport itself — sockets, event listeners, logging — lives outside;
//! this core decides, for every transport or pointer event, the next state,
//! the surface commands to paint, and the bytes to send.

use vstd::prelude::*;

use crate::codec::{decode, encode, spec_decode, spec_encode, ProtocolError};
use crate::color::{Color, Palette};
use crate::event::{spec_recenter_out, CanvasDims, DrawEvent, Point};
use crate::pointer::{PointerPhase, PointerSm};
use crate::render::{local_continued, local_ended, remote_applied, Renderer, SurfaceOp};

verus! {

/// Lifecycle of one socket: `Closed` and `Errored` are terminal for a
/// given instance — there is no automatic reconnect.
#[derive(Clone, Copy, Debug, PartialEq, Eq, Structural)]
pub enum ConnState {
    Connecting,
    Open,
    Closed,
    Errored,
}

/// The greeting sent when the socket opens.
pub open spec fn opened_bytes() -> Seq<u8> {
    seq![79u8, 80u8, 69u8, 78u8, 69u8, 68u8]
}

/// What an outbound pointer sample looks like on the wire: the point
/// recentered to canvas-center coordinates, encoded.
pub open spec fn spec_outbound(e: DrawEvent, dims: CanvasDims) -> Seq<u8> {
    spec_encode(
        DrawEvent { position: spec_recenter_out(e.position, dims), pressed: e.pressed },
    )
}

/// One client's connection.
pub struct Connection {
    pub state: ConnState,
    pub pointer: PointerSm,
    pub renderer: Renderer,
    pub palette: Palette,
    pub dims: CanvasDims,
}

impl Connection {
    pub open spec fn wf(self) -> bool {
        self.palette.wf()
    }

    /// A fresh connection: socket connecting, pointer idle, nothing drawn.
    pub fn new(palette: Palette, dims: CanvasDims, self_color: Color) -> (c: Connection)
        requires
            palette.wf(),
        ensures
            c.wf(),
            c.state == ConnState::Connecting,
            c.pointer.phase == PointerPhase::Idle,
            c.pointer.self_color == self_color,
            c.renderer.cursor == None::<Point>,
            c.renderer.segments@ == Seq::<crate::render::Segment>::empty(),
            c.palette == palette,
            c.dims == dims,
    {
        Connection {
            state: ConnState::Connecting,
            pointer: PointerSm::new(self_color),
            renderer: Renderer::new(),
            palette,
            dims,
        }
    }

    /// The socket opened: move to `Open` and hand back the greeting to
    /// send. Only a connecting socket can open; `Closed` and `Errored`
    /// are terminal. Nothing is drawn.
    pub fn on_open(&mut self) -> (hail: Vec<u8>)
        requires
            old(self).state == ConnState::Connecting,
        ensures
            final(self).state == ConnState::Open,
            final(self).pointer == old(self).pointer,
            final(self).renderer == old(self).renderer,
            final(self).palette == old(self).palette,
            final(self).dims == old(self).dims,
            hail@ == opened_bytes(),
    {
        self.state = ConnState::Open;
        let mut hail: Vec<u8> = Vec::new();
        hail.push(79);
        hail.push(80);
        hail.push(69);
        hail.push(78);
        hail.push(69);
        hail.push(68);
        proof {
            assert(hail@ =~= opened_bytes());
        }
        hail
    }

    /// An inbound text frame. A message that decodes reaches the renderer
    /// as a remote stroke, colored by the sender's identity; one that does
    /// not is handed back as the exact protocol error, and the connection
    /// — renderer included — is left untouched, so a bad decode can never
    /// corrupt renderer state.
    pub fn on_text(&mut self, raw: &[u8]) -> (r: Result<Vec<SurfaceOp>, ProtocolError>)
        requires
            old(self).state == ConnState::Open,
            old(self).wf(),
        ensures
            final(self).state == ConnState::Open,
            final(self).wf(),
            final(self).pointer == old(self).pointer,
            final(self).palette == old(self).palette,
            final(self).dims == old(self).dims,
            match spec_decode(raw@, old(self).dims) {
                Err(e) => r == Err::<Vec<SurfaceOp>, ProtocolError>(e) && *final(self) == *old(self),
                Ok((id, ev)) => match r {
                    Ok(ops) => remote_applied(
                        old(self).renderer,
                        final(self).renderer,
                        old(self).palette.spec_color_for(id as int),
                        ev,
                        ops@,
                    ),
                    Err(_) => false,
                },
            },
    {
        match decode(raw, self.dims) {
            Err(e) => Err(e),
            Ok((id, ev)) => {
                let palette = &self.palette;
                let ops = self.renderer.apply_remote(id, ev, palette);
                Ok(ops)
            },
        }
    }

    /// An inbound binary frame: the caller may log it, but it has no
    /// drawing semantics — no surface command comes back and the
    /// connection is left exactly as it was, so a binary frame can never
    /// reach the remote-stroke path.
    pub fn on_binary(&mut self, data: &[u8]) -> (ops: Vec<SurfaceOp>)
        ensures
            *final(self) == *old(self),
            ops@ == Seq::<SurfaceOp>::empty(),
    {
        let _ = data;
        Vec::new()
    }

    /// The socket failed: terminal. No drawing side effects — an
    /// in-progress stroke stays exactly as drawn.
    pub fn on_error(&mut self)
        ensures
            final(self).state == ConnState::Errored,
            final(self).pointer == old(self).pointer,
            final(self).renderer == old(self).renderer,
            final(self).palette == old(self).palette,
            final(self).dims == old(self).dims,
    {
        self.state = ConnState::Errored;
    }

    /// The socket closed: terminal, same guarantees as an error.
    pub fn on_close(&mut self)
        ensures
            final(self).state == ConnState::Closed,
            final(self).pointer == old(self).pointer,
            final(self).renderer == old(self).renderer,
            final(self).palette == old(self).palette,
            final(self).dims == old(self).dims,
    {
        self.state = ConnState::Closed;
    }

    /// Local pointer pressed: drive the state machine, and encode what it
    /// emits for the transport, recentered to wire coordinates.
    pub fn on_pointer_down(&mut self, p: Point) -> (r: (Vec<SurfaceOp>, Option<Vec<u8>>))
        requires
            old(self).state == ConnState::Open,
            old(self).wf(),
            p.wf(),
        ensures
            final(self).state == ConnState::Open,
            final(self).wf(),
            final(self).palette == old(self).palette,
            final(self).dims == old(self).dims,
            final(self).pointer.self_color == old(self).pointer.self_color,
            old(self).pointer.phase == PointerPhase::Idle ==> final(self).pointer.phase
                == PointerPhase::Drawing && final(self).renderer.cursor == Some(p) && final(self).renderer.segments@ == old(self).renderer.segments@ && r.0@ == seq![
                SurfaceOp::SetColor(old(self).pointer.self_color),
                SurfaceOp::BeginPath(p),
            ] && (match r.1 {
                Some(msg) => msg@ == spec_outbound(
                    DrawEvent { position: p, pressed: true },
                    old(self).dims,
                ),
                None => false,
            }),
            old(self).pointer.phase == PointerPhase::Drawing ==> *final(self) == *old(self)
                && r.0@ == Seq::<SurfaceOp>::empty() && r.1 == None::<Vec<u8>>,
    {
        let dims = self.dims;
        let (ops, emitted) = self.pointer.on_down(&mut self.renderer, p);
        let msg = match emitted {
            Some(ev) => Some(Self::outbound(ev, dims)),
            None => None,
        };
        (ops, msg)
    }

    /// Local pointer moved: paint while drawing, and always report the
    /// cursor to peers with the current pressed state.
    pub fn on_pointer_move(&mut self, p: Point) -> (r: (Vec<SurfaceOp>, Option<Vec<u8>>))
        requires
            old(self).state == ConnState::Open,
            old(self).wf(),
            p.wf(),
        ensures
            final(self).state == ConnState::Open,
            final(self).wf(),
            final(self).palette == old(self).palette,
            final(self).dims == old(self).dims,
            final(self).pointer == old(self).pointer,
            match r.1 {
                Some(msg) => msg@ == spec_outbound(
                    DrawEvent {
                        position: p,
                        pressed: old(self).pointer.phase == PointerPhase::Drawing,
                    },
                    old(self).dims,
                ),
                None => false,
            },
            old(self).pointer.phase == PointerPhase::Drawing ==> local_continued(
                old(self).renderer,
                final(self).renderer,
                old(self).pointer.self_color,
                p,
                r.0@,
            ),
            old(self).pointer.phase == PointerPhase::Idle ==> final(self).renderer == old(self).renderer && r.0@ == Seq::<SurfaceOp>::empty(),
    {
        let dims = self.dims;
        let (ops, emitted) = self.pointer.on_move(&mut self.renderer, p);
        let msg = match emitted {
            Some(ev) => Some(Self::outbound(ev, dims)),
            None => None,
        };
        (ops, msg)
    }

    /// Local pointer released: finish the stroke, return to idle, and
    /// report the release.
    pub fn on_pointer_up(&mut self, p: Point) -> (r: (Vec<SurfaceOp>, Option<Vec<u8>>))
        requires
            old(self).state == ConnState::Open,
            old(self).wf(),
            p.wf(),
        ensures
            final(self).state == ConnState::Open,
            final(self).wf(),
            final(self).palette == old(self).palette,
            final(self).dims == old(self).dims,
            final(self).pointer.self_color == old(self).pointer.self_color,
            final(self).pointer.phase == PointerPhase::Idle,
            old(self).pointer.phase == PointerPhase::Drawing ==> local_ended(
                old(self).renderer,
                final(self).renderer,
                old(self).pointer.self_color,
                p,
                r.0@,
            ) && (match r.1 {
                Some(msg) => msg@ == spec_outbound(
                    DrawEvent { position: p, pressed: false },
                    old(self).dims,
                ),
                None => false,
            }),
            old(self).pointer.phase == PointerPhase::Idle ==> final(self).renderer == old(self).renderer && r.0@ == Seq::<SurfaceOp>::empty() && r.1 == None::<Vec<u8>>,
    {
        let dims = self.dims;
        let (ops, emitted) = self.pointer.on_up(&mut self.renderer, p);
        let msg = match emitted {
            Some(ev) => Some(Self::outbound(ev, dims)),
            None => None,
        };
        (ops, msg)
    }

    /// Recenter an emitted sample to wire coordinates and encode it.
    fn outbound(ev: DrawEvent, dims: CanvasDims) -> (msg: Vec<u8>)
        requires
            ev.position.wf(),
        ensures
            msg@ == spec_outbound(ev, dims),
    {
        let wire = crate::event::recenter_out(ev.position, dims);
        let wire_event = DrawEvent { position: wire, pressed: ev.pressed };
        encode(&wire_event)
    }
}

} // verus!
