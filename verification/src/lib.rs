//! Planning for a build step that compiles `.proto` interface definitions
//! into sources and gRPC stubs, and writes an index of what was generated.
//!
//! The crate decides; its caller acts. A [`Builder`] holds the
//! configuration and picks the input files out of a directory listing. A
//! run is taken one action at a time: [`Builder::generate`] tells what to do
//! first, the caller does it on the file system or with the protobuf
//! compiler and reports what happened, and [`Builder::advance`] tells what
//! to do next, until the run is finished or given up.

pub mod builder;
pub mod byte_order;
pub mod compiler;
pub mod discovery;
pub mod index;
pub mod names;
pub mod order;
pub mod run;
pub mod steps;

pub use crate::builder::Builder;
pub use crate::discovery::Entry;
pub use crate::steps::{Action, BuildError, ErrorKind, Event};
