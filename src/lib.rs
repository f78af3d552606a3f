//! Local and remote assets, diagnostics-ready source files, and the
//! decisions behind turning a directory tree into a tar or zip archive.
//!
//! The filesystem, the network and the compression streams are driven by the
//! caller; this crate decides what each step writes, in which order, and
//! which error each failure becomes.

pub mod archive;
pub mod asset;
pub mod error;
pub mod local;
pub mod outside;
pub mod paths;
pub mod remote;
pub mod source;

pub use asset::Asset;
pub use error::AxoassetError;
pub use local::LocalAsset;
pub use remote::RemoteAsset;
pub use source::SourceFile;
