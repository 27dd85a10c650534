//! The control core of a small X11 window manager: the ICCCM property codecs,
//! the mirrored window stack, the drag/resize geometry and the per-event
//! decisions of the event loop. The connection to the X server lives outside
//! this library: it hands events in and performs the requests that come
//! back.

pub mod atom;
pub mod config;
pub mod hints;
pub mod client;
pub mod request;
pub mod drag;
pub mod control;
pub mod remote;
