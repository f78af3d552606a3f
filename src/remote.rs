//! Assets fetched over HTTP(S), and how such an asset is named on disk.

use vstd::prelude::*;

use crate::error::AxoassetError;

verus! {

/// A remote asset: one fetched over the network.
#[derive(Debug)]
pub struct RemoteAsset {
    /// A file name with an extension, taken from the origin path and from
    /// the content type that the server reported
    pub filename: String,
    /// The http or https URL of the asset
    pub origin_path: String,
    /// The contents of the asset
    pub contents: Vec<u8>,
}

/// The scheme and the path of `s` as `url::Url::parse` reads them, or
/// `None` where `s` is not a valid absolute URL.
pub uninterp spec fn parsed_url(s: Seq<char>) -> Option<(Seq<char>, Seq<char>)>;

/// Relies on `url::Url::parse`, `url::Url::scheme` and `url::Url::path`:
/// parses an absolute URL and hands back its scheme and its path.
#[verifier::external_body]
pub(crate) fn parse_url(s: &str) -> (r: Result<(String, String), url::ParseError>)
    ensures
        match r {
            Ok((scheme, path)) => parsed_url(s@) == Some((scheme@, path@)),
            Err(_) => parsed_url(s@) is None,
        },
{
    url::Url::parse(s).map(|u| (u.scheme().to_string(), u.path().to_string()))
}

/// A MIME type taken apart: its type, subtype and suffix (lower case), and
/// the whole text.
#[derive(Debug)]
pub struct MimeParts {
    /// The top-level type, as in `text`
    pub type_: String,
    /// The subtype, as in `plain`
    pub subtype: String,
    /// The structured-syntax suffix, as in `md` of `text/plain+md`
    pub suffix: Option<String>,
    /// The whole MIME type as text
    pub source: String,
}

pub open spec fn opt_view(o: Option<String>) -> Option<Seq<char>> {
    match o {
        Some(s) => Some(s@),
        None => None,
    }
}

/// The parts of `s` as the `mime` crate parses it, or `None` where it does
/// not parse: type, subtype, suffix and the whole text.
pub uninterp spec fn parsed_mime(s: Seq<char>) -> Option<(Seq<char>, Seq<char>, Option<Seq<char>>, Seq<char>)>;

/// Relies on `mime::Mime`'s `FromStr` and on `Mime::type_`, `Mime::subtype`,
/// `Mime::suffix` and its `Display`: parses a MIME type and takes it apart.
#[verifier::external_body]
fn parse_mime(s: &str) -> (r: Result<MimeParts, mime::FromStrError>)
    ensures
        match r {
            Ok(m) => parsed_mime(s@) == Some((m.type_@, m.subtype@, opt_view(m.suffix), m.source@)),
            Err(_) => parsed_mime(s@) is None,
        },
{
    s.parse::<mime::Mime>().map(|m| MimeParts {
        type_: m.type_().as_str().to_string(),
        subtype: m.subtype().as_str().to_string(),
        suffix: m.suffix().map(|x| x.as_str().to_string()),
        source: m.to_string(),
    })
}

/// For the MIME type `m`: `None` where `image::ImageFormat::from_mime_type`
/// knows no image format for it, else the first of that format's file
/// extensions, if it has any.
pub uninterp spec fn image_format_extension(m: Seq<char>) -> Option<Option<Seq<char>>>;

/// Relies on `image::ImageFormat::from_mime_type` and
/// `image::ImageFormat::extensions_str`: the image format that a MIME type
/// names, and that format's first extension.
#[verifier::external_body]
fn image_extension_of(m: &str) -> (r: Option<Option<String>>)
    ensures
        match r {
            Some(e) => image_format_extension(m@) == Some(opt_view(e)),
            None => image_format_extension(m@) is None,
        },
{
    match image::ImageFormat::from_mime_type(m) {
        Some(format) => Some(format.extensions_str().first().map(|e| e.to_string())),
        None => None,
    }
}

/// The extension of a text MIME type: its suffix where it has one, else
/// `txt` for `plain` and `css` for `css`.
pub open spec fn text_extension_for(subtype: Seq<char>, suffix: Option<Seq<char>>) -> Option<Seq<char>> {
    match suffix {
        Some(x) => Some(x),
        None => if subtype == seq!['p', 'l', 'a', 'i', 'n'] {
            Some(seq!['t', 'x', 't'])
        } else if subtype == seq!['c', 's', 's'] {
            Some(seq!['c', 's', 's'])
        } else {
            None
        },
    }
}

pub open spec fn is_image_type(t: Seq<char>) -> bool {
    t == seq!['i', 'm', 'a', 'g', 'e']
}

pub open spec fn is_text_type(t: Seq<char>) -> bool {
    t == seq!['t', 'e', 'x', 't']
}

/// The extension that a parsed MIME type gives a downloaded file; `None`
/// where it gives none.
pub open spec fn mime_extension(parts: (Seq<char>, Seq<char>, Option<Seq<char>>, Seq<char>)) -> Option<Seq<char>> {
    let (t, sub, suf, src) = parts;
    if is_image_type(t) {
        match image_format_extension(src) {
            Some(Some(e)) => Some(e),
            _ => None,
        }
    } else if is_text_type(t) {
        text_extension_for(sub, suf)
    } else {
        None
    }
}

/// A content-type header as the caller read it: absent, present but not
/// text, or its text.
pub open spec fn header_view(h: Option<Result<&str, String>>) -> Option<Option<Seq<char>>> {
    match h {
        Some(Ok(s)) => Some(Some(s@)),
        Some(Err(_)) => Some(None),
        None => None,
    }
}

/// The extension that a content-type header gives a downloaded file;
/// `None` where it gives none, and the header is then an error.
pub open spec fn header_extension(h: Option<Option<Seq<char>>>) -> Option<Seq<char>> {
    match h {
        Some(Some(s)) => match parsed_mime(s) {
            Some(parts) => mime_extension(parts),
            None => None,
        },
        _ => None,
    }
}

/// The error that a content-type header gives where it gives no extension:
/// a missing header, one that is not text, one that is not a MIME type,
/// one that is neither an image nor text, an image format without an
/// extension, or a type without a known extension.
pub open spec fn is_header_failure(e: AxoassetError, h: Option<Option<Seq<char>>>, origin_path: Seq<char>) -> bool {
    match h {
        None => e is RemoteAssetMissingContentTypeHeader
            && e->RemoteAssetMissingContentTypeHeader_origin_path@ == origin_path,
        Some(None) => e is ReqwestHeaderParse,
        Some(Some(s)) => match parsed_mime(s) {
            None => e is MimeParseParse,
            Some((t, _, _, src)) => if !is_image_type(t) && !is_text_type(t) {
                e is RemoteAssetNonImageMimeType && e->RemoteAssetNonImageMimeType_origin_path@ == origin_path
            } else if is_image_type(t) && image_format_extension(src) == Some(None::<Seq<char>>) {
                e is RemoteAssetIndeterminateImageFormatExtension
                    && e->RemoteAssetIndeterminateImageFormatExtension_origin_path@ == origin_path
            } else {
                e is RemoteAssetMimeTypeNotSupported
                    && e->RemoteAssetMimeTypeNotSupported_origin_path@ == origin_path
                    && e->RemoteAssetMimeTypeNotSupported_mimetype@ == src
            },
        },
    }
}

/// The `/` of a URL path turned into `_`, and the leading one dropped.
pub open spec fn file_stem_of_path(p: Seq<char>) -> Seq<char> {
    let r = Seq::new(p.len(), |i: int| if p[i] == '/' { '_' } else { p[i] });
    if r.len() > 0 {
        r.drop_first()
    } else {
        r
    }
}

fn eq_word(s: &str, word: &str) -> (r: bool)
    ensures
        r == (s@ == word@),
{
    let n = s.unicode_len();
    if n != word.unicode_len() {
        return false;
    }
    let mut i: usize = 0;
    while i < n
        invariant
            n == s@.len(),
            n == word@.len(),
            i <= n,
            s@.subrange(0, i as int) == word@.subrange(0, i as int),
        decreases n - i,
    {
        if s.get_char(i) != word.get_char(i) {
            return false;
        }
        assert(s@.subrange(0, i + 1) =~= s@.subrange(0, i as int).push(s@[i as int]));
        assert(word@.subrange(0, i + 1) =~= word@.subrange(0, i as int).push(word@[i as int]));
        i = i + 1;
    }
    assert(s@.subrange(0, n as int) =~= s@);
    assert(word@.subrange(0, n as int) =~= word@);
    true
}

fn has_dot(s: &str) -> (r: bool)
    ensures
        r == s@.contains('.'),
{
    let n = s.unicode_len();
    let mut i: usize = 0;
    while i < n
        invariant
            n == s@.len(),
            i <= n,
            forall|j: int| 0 <= j < i ==> s@[j] != '.',
        decreases n - i,
    {
        if s.get_char(i) == '.' {
            return true;
        }
        i = i + 1;
    }
    false
}

/// The file stem that a URL path gives a download: `/` turned into `_`,
/// the leading one dropped.
pub fn file_stem(path: &str) -> (r: String)
    ensures
        r@ == file_stem_of_path(path@),
{
    let ghost full = Seq::new(path@.len(), |i: int| if path@[i] == '/' { '_' } else { path@[i] });
    let n = path.unicode_len();
    let mut out = String::new();
    if n == 0 {
        proof {
            assert(out@ =~= file_stem_of_path(path@));
        }
        return out;
    }
    let mut i: usize = 1;
    while i < n
        invariant
            n == path@.len(),
            1 <= i <= n,
            full == Seq::new(path@.len(), |i: int| if path@[i] == '/' { '_' } else { path@[i] }),
            out@ == full.subrange(1, i as int),
        decreases n - i,
    {
        proof {
            reveal_strlit("_");
            assert("_"@ =~= seq!['_']);
        }
        let c = path.get_char(i);
        if c == '/' {
            out.append("_");
        } else {
            let one = path.substring_char(i, i + 1);
            assert(one@ =~= seq![c]);
            out.append(one);
        }
        assert(out@ =~= full.subrange(1, i + 1));
        i = i + 1;
    }
    assert(full.drop_first() =~= full.subrange(1, n as int));
    out
}

/// The extension of a text MIME type: its suffix where it has one, else
/// `txt` for `text/plain` and `css` for `text/css`.
pub fn text_extension(subtype: &str, suffix: Option<&str>) -> (r: Option<String>)
    ensures
        opt_view(r) == text_extension_for(
            subtype@,
            match suffix {
                Some(x) => Some(x@),
                None => None,
            },
        ),
{
    proof {
        reveal_strlit("plain");
        assert("plain"@ =~= seq!['p', 'l', 'a', 'i', 'n']);
        reveal_strlit("css");
        assert("css"@ =~= seq!['c', 's', 's']);
        reveal_strlit("txt");
        assert("txt"@ =~= seq!['t', 'x', 't']);
    }
    match suffix {
        Some(x) => {
            let r = x.to_string();
            assert(r@ == x@);
            Some(r)
        },
        None => if eq_word(subtype, "plain") {
            let r = "txt".to_string();
            assert(r@ == seq!['t', 'x', 't']);
            Some(r)
        } else if eq_word(subtype, "css") {
            let r = "css".to_string();
            assert(r@ == seq!['c', 's', 's']);
            Some(r)
        } else {
            None
        },
    }
}

impl RemoteAsset {
    /// The content type of a response, from its content-type header: an
    /// image or text MIME type; anything else is an error.
    pub fn mimetype(content_type: Option<Result<&str, String>>, origin_path: &str) -> (r: Result<
        MimeParts,
        AxoassetError,
    >)
        ensures
            match r {
                Ok(m) => match header_view(content_type) {
                    Some(Some(s)) => parsed_mime(s) == Some((m.type_@, m.subtype@, opt_view(m.suffix), m.source@))
                        && (is_image_type(m.type_@) || is_text_type(m.type_@)),
                    _ => false,
                },
                Err(e) => match header_view(content_type) {
                    None => e is RemoteAssetMissingContentTypeHeader
                        && e->RemoteAssetMissingContentTypeHeader_origin_path@ == origin_path@,
                    Some(None) => e is ReqwestHeaderParse,
                    Some(Some(s)) => match parsed_mime(s) {
                        None => e is MimeParseParse,
                        Some((t, _, _, _)) => !is_image_type(t) && !is_text_type(t)
                            && e is RemoteAssetNonImageMimeType
                            && e->RemoteAssetNonImageMimeType_origin_path@ == origin_path@,
                    },
                },
            },
    {
        proof {
            reveal_strlit("image");
            assert("image"@ =~= seq!['i', 'm', 'a', 'g', 'e']);
            reveal_strlit("text");
            assert("text"@ =~= seq!['t', 'e', 'x', 't']);
        }
        match content_type {
            Some(Ok(text)) => match parse_mime(text) {
                Ok(m) => {
                    if eq_word(m.type_.as_str(), "image") || eq_word(m.type_.as_str(), "text") {
                        Ok(m)
                    } else {
                        Err(AxoassetError::RemoteAssetNonImageMimeType { origin_path: origin_path.to_string() })
                    }
                },
                Err(e) => Err(AxoassetError::MimeParseParse(e)),
            },
            Some(Err(details)) => Err(AxoassetError::ReqwestHeaderParse { details }),
            None => Err(AxoassetError::RemoteAssetMissingContentTypeHeader { origin_path: origin_path.to_string() }),
        }
    }

    /// The file extension for a content type: the image format's first
    /// extension for an image, the suffix or a known subtype for text.
    pub fn extension(mimetype: &MimeParts, origin_path: &str) -> (r: Result<String, AxoassetError>)
        ensures
            match r {
                Ok(ext) => mime_extension(
                    (mimetype.type_@, mimetype.subtype@, opt_view(mimetype.suffix), mimetype.source@),
                ) == Some(ext@),
                Err(e) => mime_extension(
                    (mimetype.type_@, mimetype.subtype@, opt_view(mimetype.suffix), mimetype.source@),
                ) is None && if is_image_type(mimetype.type_@) && image_format_extension(
                    mimetype.source@,
                ) == Some(None::<Seq<char>>) {
                    e is RemoteAssetIndeterminateImageFormatExtension
                        && e->RemoteAssetIndeterminateImageFormatExtension_origin_path@ == origin_path@
                } else {
                    e is RemoteAssetMimeTypeNotSupported
                        && e->RemoteAssetMimeTypeNotSupported_origin_path@ == origin_path@
                        && e->RemoteAssetMimeTypeNotSupported_mimetype@ == mimetype.source@
                },
            },
    {
        proof {
            reveal_strlit("image");
            assert("image"@ =~= seq!['i', 'm', 'a', 'g', 'e']);
            reveal_strlit("text");
            assert("text"@ =~= seq!['t', 'e', 'x', 't']);
        }
        let unsupported = AxoassetError::RemoteAssetMimeTypeNotSupported {
            origin_path: origin_path.to_string(),
            mimetype: mimetype.source.clone(),
        };
        if eq_word(mimetype.type_.as_str(), "image") {
            assert(is_image_type(mimetype.type_@));
            match image_extension_of(mimetype.source.as_str()) {
                Some(Some(ext)) => {
                    assert(image_format_extension(mimetype.source@) == Some(Some(ext@)));
                    Ok(ext)
                },
                Some(None) => Err(
                    AxoassetError::RemoteAssetIndeterminateImageFormatExtension {
                        origin_path: origin_path.to_string(),
                    },
                ),
                None => Err(unsupported),
            }
        } else if eq_word(mimetype.type_.as_str(), "text") {
            assert(!is_image_type(mimetype.type_@));
            assert(is_text_type(mimetype.type_@));
            let suffix = match &mimetype.suffix {
                Some(x) => Some(x.as_str()),
                None => None,
            };
            assert(match suffix {
                Some(x) => Some(x@),
                None => None,
            } == opt_view(mimetype.suffix));
            match text_extension(mimetype.subtype.as_str(), suffix) {
                Some(ext) => Ok(ext),
                None => Err(unsupported),
            }
        } else {
            Err(unsupported)
        }
    }

    /// The file name under which a downloaded asset is written: the URL's
    /// path with `/` turned into `_` (the leading one dropped); where that
    /// has no `.`, the extension that the content type gives is added.
    pub fn filename(origin_path: &str, content_type: Option<Result<&str, String>>) -> (r: Result<
        String,
        AxoassetError,
    >)
        ensures
            match parsed_url(origin_path@) {
                None => r is Err && r->Err_0 is UrlParse,
                Some((_, path)) => {
                    let stem = file_stem_of_path(path);
                    if stem.contains('.') {
                        r is Ok && r->Ok_0@ == stem
                    } else {
                        match header_extension(header_view(content_type)) {
                            Some(ext) => r is Ok && r->Ok_0@ == stem + seq!['.'] + ext,
                            None => r is Err && is_header_failure(
                                r->Err_0,
                                header_view(content_type),
                                origin_path@,
                            ),
                        }
                    }
                },
            },
    {
        match parse_url(origin_path) {
            Ok((_, path)) => {
                let stem = file_stem(path.as_str());
                if has_dot(stem.as_str()) {
                    return Ok(stem);
                }
                let ghost h = header_view(content_type);
                let m = match RemoteAsset::mimetype(content_type, origin_path) {
                    Ok(m) => m,
                    Err(e) => {
                        return Err(e);
                    },
                };
                let ext = match RemoteAsset::extension(&m, origin_path) {
                    Ok(ext) => ext,
                    Err(e) => {
                        return Err(e);
                    },
                };
                let mut name = stem;
                name.append(".");
                name.append(ext.as_str());
                proof {
                    reveal_strlit(".");
                    assert("."@ =~= seq!['.']);
                    assert(header_extension(h) == Some(ext@));
                }
                Ok(name)
            },
            Err(e) => Err(AxoassetError::UrlParse(e)),
        }
    }
}

} // verus!
