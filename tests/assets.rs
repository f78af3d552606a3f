use axoasset::asset::is_remote;
use axoasset::source::line_col_offset;
use axoasset::{Asset, AxoassetError, LocalAsset, SourceFile};

#[test]
fn local_paths_are_not_remote() {
    assert_eq!(is_remote("./tests/assets/README.md").unwrap(), false);
    assert_eq!(is_remote("htt").unwrap(), false);
    assert_eq!(is_remote("https://example.com/a.png").unwrap(), true);
    assert_eq!(is_remote("http://example.com/").unwrap(), true);
}

#[test]
fn other_schemes_and_bad_urls_are_errors() {
    assert!(matches!(
        is_remote("httpx://example.com/a"),
        Err(AxoassetError::RemoteAssetPathSchemeNotSupported { .. })
    ));
    assert!(matches!(
        is_remote("http://[bad"),
        Err(AxoassetError::RemoteAssetPathParseError { .. })
    ));
    assert!(matches!(
        is_remote("http no scheme"),
        Err(AxoassetError::RemoteAssetPathParseError { .. })
    ));
}

#[test]
fn new_asset_is_local() {
    match Asset::new("./tests/assets/styles.css", b"@import".to_vec()).unwrap() {
        Asset::LocalAsset(a) => {
            assert_eq!(a.filename, "styles.css");
            assert_eq!(a.origin_path, "./tests/assets/styles.css");
            assert_eq!(a.contents, b"@import".to_vec());
        }
        other => panic!("unexpected: {other:?}"),
    }
}

#[test]
fn new_asset_refuses_remote_addresses() {
    match Asset::new("https://example.com/logo.png", vec![]) {
        Err(AxoassetError::CannotCreateRemoteAsset { origin_path }) => {
            assert_eq!(origin_path, "https://example.com/logo.png")
        }
        other => panic!("unexpected: {other:?}"),
    }
}

#[test]
fn filename_is_the_last_component() {
    assert_eq!(LocalAsset::filename("a/b/README.md").unwrap(), "README.md");
    assert_eq!(LocalAsset::filename("/usr/bin/").unwrap(), "bin");
    assert!(matches!(
        LocalAsset::filename("a/.."),
        Err(AxoassetError::LocalAssetMissingFilename { .. })
    ));
    assert!(matches!(
        LocalAsset::new("", vec![]),
        Err(AxoassetError::LocalAssetMissingFilename { .. })
    ));
}

#[test]
fn dest_path_joins_the_filename() {
    let a = LocalAsset::new("x/y/logo.png", vec![1, 2]).unwrap();
    assert_eq!(a.dest_path("out"), "out/logo.png");
    assert_eq!(a.dest_path("out/"), "out/logo.png");
}

#[test]
fn source_file_keeps_name_origin_and_text() {
    let f = SourceFile::new("dir/file.md", "hello !there!".to_string()).unwrap();
    assert_eq!(f.filename(), "file.md");
    assert_eq!(f.origin_path(), "dir/file.md");
    assert_eq!(f.contents(), "hello !there!");
    let g = f.clone();
    assert_eq!(g.contents(), "hello !there!");
    let e = SourceFile::new_empty("file.toml").unwrap();
    assert_eq!(e.contents(), "");
    assert!(SourceFile::new("..", String::new()).is_err());
}

#[test]
fn line_and_column_find_bytes() {
    let text = "hello = \"there\"\r\ngoodbye = \ntail";
    assert_eq!(line_col_offset(text, 1, 1), Some(0));
    assert_eq!(line_col_offset(text, 1, 15), Some(14));
    assert_eq!(line_col_offset(text, 1, 16), None);
    assert_eq!(line_col_offset(text, 2, 1), Some(17));
    assert_eq!(line_col_offset(text, 3, 2), Some(29));
    assert_eq!(line_col_offset(text, 3, 4), None);
    assert_eq!(line_col_offset(text, 4, 1), None);
    assert_eq!(line_col_offset(text, 0, 1), None);
    assert_eq!(line_col_offset(text, 2, 0), None);
    assert_eq!(line_col_offset(text, 1, 0), None);
    assert_eq!(line_col_offset("", 1, 1), None);
    assert_eq!(line_col_offset("a\n", 2, 1), None);
}

#[test]
fn spans_are_one_byte_long() {
    let f = SourceFile::new("file.json", "{ \"a\": 1,\n}".to_string()).unwrap();
    let span = f.span_for_line_col(1, 3).unwrap();
    assert_eq!(span.offset(), 2);
    assert_eq!(span.len(), 1);
    assert!(f.span_for_line_col(2, 2).is_none());
    assert_eq!(f.line_col_offset(2, 1), None);
}

#[test]
fn search_starts_from_the_current_directory() {
    assert_eq!(LocalAsset::search_start("./proj", None), None);
    assert_eq!(LocalAsset::search_start("./proj", Some("/home/me")).as_deref(), Some("/home/me/proj"));
    assert_eq!(LocalAsset::search_start("proj/sub", Some("/w")).as_deref(), Some("/w/proj/sub"));
    assert_eq!(LocalAsset::search_start("/abs/dir", None).as_deref(), Some("/abs/dir"));
}

#[test]
fn search_looks_in_every_ancestor_nearest_first() {
    assert_eq!(
        LocalAsset::search_candidates("/a/b", "Cargo.toml"),
        vec!["/a/b/Cargo.toml", "/a/Cargo.toml", "/Cargo.toml"]
    );
}

#[test]
fn source_files_compare_by_contents() {
    let a = SourceFile::new("x/file.md", "text".to_string()).unwrap();
    let b = SourceFile::new("x/file.md", "text".to_string()).unwrap();
    let c = SourceFile::new("x/file.md", "other".to_string()).unwrap();
    assert_eq!(a, b);
    assert_ne!(a, c);
    assert_eq!(a.clone(), a);
}
