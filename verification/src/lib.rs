//! Discovery of removable storage media and provisioning of such media from a
//! bundled archive.
//!
//! The crate holds the decisions only. Whoever drives it reads the platform's
//! data sources and runs the extraction tool, hands over what was read as plain
//! text, bytes and numbers, and gets back drive descriptors, the next step of an
//! extraction, and the messages to report.

pub mod drives;
pub mod extract;
pub mod privilege;
pub mod text;
