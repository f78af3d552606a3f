//! Assets that may be local paths or HTTP(S) URLs.

use vstd::prelude::*;

use crate::error::AxoassetError;
use crate::local::{path_file_name, LocalAsset};
use crate::remote::{parse_url, parsed_url, RemoteAsset};

verus! {

/// Whether a path is written as an address on the web: it starts with
/// `http`.
pub open spec fn looks_remote(s: Seq<char>) -> bool {
    s.len() >= 4 && s.subrange(0, 4) == seq!['h', 't', 't', 'p']
}

/// The schemes of remote assets.
pub open spec fn is_http_scheme(scheme: Seq<char>) -> bool {
    scheme == seq!['h', 't', 't', 'p'] || scheme == seq!['h', 't', 't', 'p', 's']
}

fn starts_with_http(s: &str) -> (r: bool)
    ensures
        r == looks_remote(s@),
{
    if s.unicode_len() < 4 {
        return false;
    }
    let a = s.get_char(0);
    let b = s.get_char(1);
    let c = s.get_char(2);
    let d = s.get_char(3);
    let r = a == 'h' && b == 't' && c == 't' && d == 'p';
    proof {
        if r {
            assert(s@.subrange(0, 4) =~= seq!['h', 't', 't', 'p']);
        } else {
            assert(s@.subrange(0, 4)[0] == a && s@.subrange(0, 4)[1] == b);
            assert(s@.subrange(0, 4)[2] == c && s@.subrange(0, 4)[3] == d);
        }
    }
    r
}

/// Whether a URL scheme is that of a remote asset: `http` or `https`.
pub fn is_http(scheme: &str) -> (r: bool)
    ensures
        r == is_http_scheme(scheme@),
{
    let n = scheme.unicode_len();
    if n != 4 && n != 5 {
        return false;
    }
    let a = scheme.get_char(0);
    let b = scheme.get_char(1);
    let c = scheme.get_char(2);
    let d = scheme.get_char(3);
    let head = a == 'h' && b == 't' && c == 't' && d == 'p';
    let r = if n == 4 {
        head
    } else {
        head && scheme.get_char(4) == 's'
    };
    proof {
        if r {
            if n == 4 {
                assert(scheme@ =~= seq!['h', 't', 't', 'p']);
            } else {
                assert(scheme@ =~= seq!['h', 't', 't', 'p', 's']);
            }
        } else {
            if scheme@ == seq!['h', 't', 't', 'p'] {
                assert(scheme@[0] == a && scheme@[1] == b && scheme@[2] == c && scheme@[3] == d);
            }
            if scheme@ == seq!['h', 't', 't', 'p', 's'] {
                assert(scheme@[0] == a && scheme@[1] == b && scheme@[2] == c && scheme@[3] == d);
                assert(scheme@[4] == 's');
            }
        }
    }
    r
}

/// Decides whether a path designates a remote asset: it starts with
/// `http` and parses as an http or https URL. A path that starts with
/// `http` but does not parse, or has another scheme, is an error.
pub fn is_remote(origin_path: &str) -> (r: Result<bool, AxoassetError>)
    ensures
        !looks_remote(origin_path@) ==> r == Ok::<bool, AxoassetError>(false),
        looks_remote(origin_path@) ==> match parsed_url(origin_path@) {
            Some((scheme, _)) => if is_http_scheme(scheme) {
                r == Ok::<bool, AxoassetError>(true)
            } else {
                r is Err && r->Err_0 is RemoteAssetPathSchemeNotSupported
                    && r->Err_0->RemoteAssetPathSchemeNotSupported_origin_path@ == origin_path@
            },
            None => r is Err && r->Err_0 is RemoteAssetPathParseError
                && r->Err_0->RemoteAssetPathParseError_origin_path@ == origin_path@,
        },
{
    if !starts_with_http(origin_path) {
        return Ok(false);
    }
    match parse_url(origin_path) {
        Ok((scheme, _)) => {
            if is_http(scheme.as_str()) {
                Ok(true)
            } else {
                Err(AxoassetError::RemoteAssetPathSchemeNotSupported { origin_path: origin_path.to_string() })
            }
        },
        Err(details) => Err(
            AxoassetError::RemoteAssetPathParseError { origin_path: origin_path.to_string(), details },
        ),
    }
}

/// An asset: a local one, designated by a path on the local filesystem,
/// or a remote one, designated by an http or https URL.
#[derive(Debug)]
pub enum Asset {
    /// An asset on the local filesystem
    LocalAsset(LocalAsset),
    /// An asset at an http or https URL
    RemoteAsset(RemoteAsset),
}

impl Asset {
    /// Creates a new local asset without touching the filesystem; fails on
    /// a remote address, on a malformed one, and on a path without a file
    /// name.
    pub fn new(origin_path: &str, contents: Vec<u8>) -> (r: Result<Asset, AxoassetError>)
        ensures
            match r {
                Ok(asset) => !looks_remote(origin_path@) && asset is LocalAsset
                    && path_file_name(origin_path@) == Some(asset->LocalAsset_0.filename@)
                    && asset->LocalAsset_0.origin_path@ == origin_path@
                    && asset->LocalAsset_0.contents@ == contents@,
                Err(e) => if !looks_remote(origin_path@) {
                    path_file_name(origin_path@) is None && e is LocalAssetMissingFilename
                        && e->LocalAssetMissingFilename_origin_path@ == origin_path@
                } else {
                    match parsed_url(origin_path@) {
                        Some((scheme, _)) => if is_http_scheme(scheme) {
                            e is CannotCreateRemoteAsset
                                && e->CannotCreateRemoteAsset_origin_path@ == origin_path@
                        } else {
                            e is RemoteAssetPathSchemeNotSupported
                                && e->RemoteAssetPathSchemeNotSupported_origin_path@ == origin_path@
                        },
                        None => e is RemoteAssetPathParseError
                            && e->RemoteAssetPathParseError_origin_path@ == origin_path@,
                    }
                },
            },
    {
        match is_remote(origin_path) {
            Ok(true) => Err(AxoassetError::CannotCreateRemoteAsset { origin_path: origin_path.to_string() }),
            Ok(false) => match LocalAsset::new(origin_path, contents) {
                Ok(a) => Ok(Asset::LocalAsset(a)),
                Err(e) => Err(e),
            },
            Err(e) => Err(e),
        }
    }
}

} // verus!
