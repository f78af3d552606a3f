use axoasset::remote::text_extension;
use axoasset::{AxoassetError, RemoteAsset};

#[test]
fn url_paths_with_a_dot_are_kept() {
    assert_eq!(RemoteAsset::filename("https://example.com/README.md", None).unwrap(), "README.md");
    assert_eq!(
        RemoteAsset::filename("http://127.0.0.1:8080/docs/styles.css", None).unwrap(),
        "docs_styles.css"
    );
}

#[test]
fn text_types_give_extensions() {
    assert_eq!(
        RemoteAsset::filename("http://127.0.0.1:8080/README", Some(Ok("text/plain+md"))).unwrap(),
        "README.md"
    );
    assert_eq!(
        RemoteAsset::filename("http://127.0.0.1:8080/styles", Some(Ok("text/css"))).unwrap(),
        "styles.css"
    );
    assert_eq!(
        RemoteAsset::filename("http://host/notes", Some(Ok("text/plain; charset=utf-8"))).unwrap(),
        "notes.txt"
    );
    assert_eq!(text_extension("plain", None).as_deref(), Some("txt"));
    assert_eq!(text_extension("css", None).as_deref(), Some("css"));
    assert_eq!(text_extension("plain", Some("md")).as_deref(), Some("md"));
    assert_eq!(text_extension("html", None), None);
}

#[test]
fn image_types_give_their_first_extension() {
    assert_eq!(
        RemoteAsset::filename("https://host/a/logo", Some(Ok("image/png"))).unwrap(),
        "a_logo.png"
    );
    assert_eq!(
        RemoteAsset::filename("https://host/photo", Some(Ok("image/jpeg"))).unwrap(),
        "photo.jpg"
    );
}

#[test]
fn unusable_content_types_are_errors() {
    assert!(matches!(
        RemoteAsset::filename("https://host/data", Some(Ok("application/json"))),
        Err(AxoassetError::RemoteAssetNonImageMimeType { .. })
    ));
    match RemoteAsset::filename("https://host/page", Some(Ok("text/html"))) {
        Err(AxoassetError::RemoteAssetMimeTypeNotSupported { mimetype, origin_path }) => {
            assert_eq!(mimetype, "text/html");
            assert_eq!(origin_path, "https://host/page");
        }
        other => panic!("unexpected: {other:?}"),
    }
    assert!(matches!(
        RemoteAsset::filename("https://host/drawing", Some(Ok("image/svg+xml"))),
        Err(AxoassetError::RemoteAssetMimeTypeNotSupported { .. })
    ));
    assert!(matches!(
        RemoteAsset::filename("https://host/x", None),
        Err(AxoassetError::RemoteAssetMissingContentTypeHeader { .. })
    ));
    assert!(matches!(
        RemoteAsset::filename("https://host/x", Some(Err("bad header".to_string()))),
        Err(AxoassetError::ReqwestHeaderParse { .. })
    ));
    assert!(matches!(
        RemoteAsset::filename("https://host/x", Some(Ok("not a mime"))),
        Err(AxoassetError::MimeParseParse(_))
    ));
    assert!(matches!(
        RemoteAsset::filename("no url here", Some(Ok("text/plain"))),
        Err(AxoassetError::UrlParse(_))
    ));
}

#[test]
fn mimetype_accepts_images_and_text() {
    let m = RemoteAsset::mimetype(Some(Ok("Text/Plain+MD")), "http://h/r").unwrap();
    assert_eq!(m.type_, "text");
    assert_eq!(m.subtype, "plain");
    assert_eq!(m.suffix.as_deref(), Some("md"));
    assert_eq!(RemoteAsset::extension(&m, "http://h/r").unwrap(), "md");
}

#[test]
fn url_paths_become_file_stems() {
    assert_eq!(axoasset::remote::file_stem("/a/b/logo"), "a_b_logo");
    assert_eq!(axoasset::remote::file_stem("/README.md"), "README.md");
    assert_eq!(axoasset::remote::file_stem(""), "");
    assert_eq!(axoasset::remote::file_stem("x"), "");
}

#[test]
fn only_http_schemes_are_remote() {
    assert!(axoasset::asset::is_http("http"));
    assert!(axoasset::asset::is_http("https"));
    assert!(!axoasset::asset::is_http("ftp"));
    assert!(!axoasset::asset::is_http("httpx"));
    assert!(!axoasset::asset::is_http("http2"));
}

#[test]
fn missing_extension_names_the_header_error() {
    match RemoteAsset::filename("https://host/x", None) {
        Err(AxoassetError::RemoteAssetMissingContentTypeHeader { origin_path }) => {
            assert_eq!(origin_path, "https://host/x")
        }
        other => panic!("unexpected: {other:?}"),
    }
}
