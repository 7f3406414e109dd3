//! Configuration and session logic of `mstsc-rs`, a native RDP client that
//! hosts the Windows Remote Desktop ActiveX control.
//!
//! The library reads and rewrites `.rdp` documents without losing lines,
//! merges them with the command line and the connection form, and derives
//! every setting handed to the control. The Windows host itself (window,
//! COM activation and event plumbing) lives in the application.
pub mod cli;
pub mod config;
pub mod control;
pub mod display;
pub mod encoding;
pub mod error;
pub mod events;
pub mod rdp;
pub mod redirection;
pub mod session;
pub mod text;

pub use config::{ConnectionOverrides, PasswordSource, SessionConfig};
pub use error::{Error, Result};
pub use rdp::{RdpDocument, RdpEncoding, RdpEntry, RdpLine, RdpValue};
