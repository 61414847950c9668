//! A version manager's core for a compiler toolchain shipped as
//! platform-specific release archives.
//!
//! The library owns the decision logic of the pipeline: decoding asset
//! filenames into metadata ([`release`]), matching that metadata against the
//! running host ([`platform`]), resolving the `latest` release and selecting
//! the one asset to install ([`resolve`]), and sequencing the install's
//! filesystem steps with their failure handling ([`install`]).  Fetching the
//! feed and touching the filesystem stay with the caller, which performs
//! exactly the steps decided here.

pub mod install;
pub mod platform;
pub mod release;
pub mod resolve;
pub mod strutil;
