//! The errors of every operation of the library.

use vstd::prelude::*;

use crate::archive::ArchiveStage;
use crate::source::SourceFile;

verus! {

/// The set of errors that can occur when assets are created, loaded,
/// written, or archived.
#[derive(Debug)]
#[allow(inconsistent_fields)]
pub enum AxoassetError {
    /// A new asset was asked for at a remote address: only local assets can
    /// be created.
    CannotCreateRemoteAsset {
        /// The origin path of the asset
        origin_path: String,
    },
    /// The address looked remote (it starts with `http`) but its scheme is
    /// neither `http` nor `https`.
    RemoteAssetPathSchemeNotSupported {
        /// The origin path of the asset
        origin_path: String,
    },
    /// The address looked remote but is not a valid URL.
    RemoteAssetPathParseError {
        /// The origin path of the asset
        origin_path: String,
        /// Details of the error
        details: url::ParseError,
    },
    /// The destination file could not be created.
    LocalAssetWriteNewFailed {
        /// The path that was to be written
        dest_path: String,
        /// Details of the error
        details: std::io::Error,
    },
    /// The compressor around an archive could not be set up.
    ArchiveEncoderFailed {
        /// The archive file being written
        dest_path: String,
        /// Details of the error
        details: std::io::Error,
    },
    /// Writing the tree into the archive failed partway; the destination
    /// is left incomplete.
    ArchiveWriteFailed {
        /// The directory being archived
        src_path: String,
        /// The archive file being written
        dest_path: String,
        /// Details of the error
        details: std::io::Error,
    },
    /// Closing the container or the compressor failed; the destination is
    /// unusable.
    ArchiveFinalizeFailed {
        /// The archive file being written
        dest_path: String,
        /// The stage that failed
        stage: ArchiveStage,
        /// Details of the error
        details: std::io::Error,
    },
    /// A directory walk found an object that an archive cannot hold (a
    /// symlink, a device, a socket).
    ArchiveUnsupportedEntry {
        /// The path of the object
        entry_path: String,
    },
    /// A URL did not parse.
    UrlParse(url::ParseError),
    /// A content type did not parse as a MIME type.
    MimeParseParse(mime::FromStrError),
    /// A response header could not be read as text.
    ReqwestHeaderParse {
        /// Details of the error
        details: String,
    },
    /// The server's content type is neither an image nor text.
    RemoteAssetNonImageMimeType {
        /// The origin path of the asset
        origin_path: String,
    },
    /// No file extension is known for the server's content type.
    RemoteAssetMimeTypeNotSupported {
        /// The origin path of the asset
        origin_path: String,
        /// The content type of the response
        mimetype: String,
    },
    /// The server's content type names an image format with no file
    /// extension.
    RemoteAssetIndeterminateImageFormatExtension {
        /// The origin path of the asset
        origin_path: String,
    },
    /// The server's response has no content type header, which is needed to
    /// name the file.
    RemoteAssetMissingContentTypeHeader {
        /// The origin path of the asset
        origin_path: String,
    },
    /// No file name could be determined for the path.
    LocalAssetMissingFilename {
        /// The path of the asset
        origin_path: String,
    },
    /// A request for a remote asset failed.
    Reqwest {
        /// Details of the error
        details: String,
    },
    /// Fetching a remote asset failed.
    RemoteAssetRequestFailed {
        /// The origin path of the asset
        origin_path: String,
        /// Details of the error
        details: String,
    },
    /// Loading a remote asset failed.
    RemoteAssetLoadFailed {
        /// The origin path of the asset
        origin_path: String,
        /// Details of the error
        details: Box<AxoassetError>,
    },
    /// Copying a server response to the filesystem failed.
    RemoteAssetCopyFailed {
        /// The origin path of the asset
        origin_path: String,
        /// Where the asset was being copied to
        dest_path: String,
        /// Details of the error
        details: std::io::Error,
    },
    /// Writing a remote asset to the filesystem failed.
    RemoteAssetWriteFailed {
        /// The origin path of the asset
        origin_path: String,
        /// Where the asset was being written to
        dest_path: String,
        /// Details of the error
        details: std::io::Error,
    },
    /// No local asset could be found at the path.
    LocalAssetNotFound {
        /// The origin path of the asset
        origin_path: String,
        /// Details of the error
        details: std::io::Error,
    },
    /// Copying a local asset failed.
    LocalAssetCopyFailed {
        /// The origin path of the asset
        origin_path: String,
        /// Where the asset was being copied to
        dest_path: String,
        /// Details of the error
        details: std::io::Error,
    },
    /// Reading a local asset failed.
    LocalAssetReadFailed {
        /// The origin path of the asset
        origin_path: String,
        /// Details of the error
        details: std::io::Error,
    },
    /// Writing a local asset failed.
    LocalAssetWriteFailed {
        /// The origin path of the asset
        origin_path: String,
        /// Where the asset was being written to
        dest_path: String,
        /// Details of the error
        details: std::io::Error,
    },
    /// Creating a directory failed.
    LocalAssetDirCreationFailed {
        /// The directory being created
        dest_path: String,
        /// Details of the error
        details: std::io::Error,
    },
    /// Removing a file or directory failed.
    LocalAssetRemoveFailed {
        /// What was being removed
        dest_path: String,
        /// Details of the error
        details: std::io::Error,
    },
    /// The current working directory could not be read.
    CurrentDir {
        /// Details of the error
        details: std::io::Error,
    },
    /// A path is not valid UTF-8.
    Utf8Path {
        /// The path, with invalid sequences replaced
        path: String,
    },
    /// The desired file is in neither the start directory nor any of its
    /// ancestors.
    SearchFailed {
        /// Where the search started
        start_dir: String,
        /// The file searched for
        desired_filename: String,
    },
    /// A source file did not parse as JSON.
    Json {
        /// The source file
        contents: SourceFile,
        /// Where the error was found, if known
        span: Option<miette::SourceSpan>,
        /// Details of the error
        details: serde_json::Error,
    },
    /// A source file did not parse as TOML.
    Toml {
        /// The source file
        contents: SourceFile,
        /// Where the error was found, if known
        span: Option<miette::SourceSpan>,
        /// Details of the error
        details: toml::de::Error,
    },
}

} // verus!
