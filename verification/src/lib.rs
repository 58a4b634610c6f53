//! Core of a collaborative drawing client: the text wire protocol between
//! peers, the palette that colors each participant's strokes, the pointer
//! state machine that turns raw mouse samples into stroke segments, the
//! incremental stroke renderer, and the connection manager that ties them
//! to a message transport.

pub mod codec;
pub mod connection;
pub mod color;
pub mod event;
pub mod num;
pub mod pointer;
pub mod render;
pub mod repo;
