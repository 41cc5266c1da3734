//! Verified core of an HDR-aware screenshot tool: the pixel layouts it
//! reads and writes, the bitmap it hands to the clipboard, the selection
//! overlay's state machine, and the decisions of the capture workflow.
pub mod selection;
pub mod dib;
pub mod pixels;
pub mod capture;
pub mod workflow;
