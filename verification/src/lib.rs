//! Reader, writer and validator for the Time Zone Information Format (TZif, RFC 9636).
//!
//! The data model stays close to the binary layout: a [`TzifFile`] holds a version,
//! the version 1 data block, an optional 64-bit data block and an optional footer.
//! Builders assemble files from designations, offsets, transitions and POSIX TZ
//! footers; helpers check the interoperability concerns of RFC 9636 Appendix A and
//! the TZif side of TZDIST (RFC 7808).
#![verifier::loop_isolation(false)]

mod builder;
mod calendar;
mod common;
mod encoding;
mod error;
mod footer;
mod footer_text;
mod interop;
pub mod laws;
mod leap;
mod message;
mod model;
mod parse;
mod text;
mod tzdist;
mod validate;
mod write;

pub use builder::{
    ExplicitTransitionsBuilder, FixedOffsetBuilder, PosixFooter, PosixTransitionRule, PosixTransitionTime,
    TzifBuilder, VersionPolicy,
};
pub use error::{TzdistError, TzifBuildError, TzifError};
pub use interop::InteroperabilityWarning;
pub use model::{DataBlock, LeapSecond, LocalTimeType, TzifFile, Version};
pub use tzdist::{validate_tzdist_capability_formats, TzdistTruncation, TzifMediaType};
