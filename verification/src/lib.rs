//! Core logic of a shape-rendering pipeline: a registry of positioned, boxed
//! shapes split across three render passes (depth-tested opaque, back-to-front
//! alpha, screen-space overlay), spatially indexed for frustum culling and
//! distance ordering, with stable handles, a per-frame render-queue composer
//! and a presence-gated style dispatch table.
//!
//! All geometry is carried as bounded integer coordinates; the unverified
//! backend shell converts to and from its own floating-point representation
//! and performs the actual draw calls.

use vstd::prelude::*;

pub mod composer;
pub mod frustum;
pub mod geom;
pub mod index;
pub mod registry;
pub mod shape;
pub mod style;

verus! {

/// The kind of window connection a backend was handed at startup.
#[derive(Clone, Copy, Debug, PartialEq, Eq, Structural)]
pub enum Connection {
    /// An X11 connection over xcb.
    Xcb,
    /// A Win32 window.
    Windows,
    /// A Wayland surface.
    Wayland,
    /// A DirectFB surface.
    DirectFb,
    /// An Android activity surface.
    Android,
    /// An iOS view.
    Ios,
    /// An Aldaron's OS surface.
    AldaronsOs,
    /// An Arduino-driven panel.
    Arduino,
    /// A Nintendo Switch surface.
    Switch,
    /// A browser canvas.
    Web,
    /// Bare metal, no OS.
    NoOs,
}

/// A startup failure: this renderer cannot drive the connection it was
/// handed. Fatal before any frame loop begins; retry policy belongs to a
/// caller that may pick another backend.
#[derive(Clone, Copy, Debug, PartialEq, Eq, Structural)]
pub struct UnsupportedConnection {
    /// The connection that was refused.
    pub connection: Connection,
}

/// The connections this renderer can drive.
pub open spec fn connection_supported(c: Connection) -> bool {
    c == Connection::Xcb || c == Connection::Windows
}

/// Decides at startup whether the renderer can drive the given window
/// connection: only xcb and Win32 connections are accepted, every other
/// kind is refused with a typed failure naming it.
pub fn check_connection(c: Connection) -> (r: Result<(), UnsupportedConnection>)
    ensures
        r is Ok <==> connection_supported(c),
        r matches Err(u) ==> u.connection == c,
{
    match c {
        Connection::Xcb => Ok(()),
        Connection::Windows => Ok(()),
        _ => Err(UnsupportedConnection { connection: c }),
    }
}

} // verus!
