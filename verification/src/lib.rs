//! Verified core of a traceroute geolocation visualizer.
//!
//! Input lines of traceroute output are tokenized into candidate hop
//! addresses; addresses in non-routable ranges are classified as local and
//! skipped; the remaining addresses are planned for a remote geographic
//! lookup. Successful lookups become `LocationRecord` values, which a display
//! state machine accumulates and a renderer turns into map marks. All of the
//! decision logic lives here with proved contracts; the surrounding I/O
//! (reading stdin, the HTTP lookup, the terminal canvas) stays outside.

pub mod classify;
pub mod display;
pub mod hopline;
pub mod pipeline;
pub mod record;
pub mod render;
