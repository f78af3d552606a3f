use std::io::{Cursor, Read, Write};

use axoasset::archive::{plan_zip, root_prefix, EntryKind, WalkEntry, ZipOp};

fn entry(rel: &[&str], kind: EntryKind) -> WalkEntry {
    WalkEntry {
        rel_path: rel.iter().map(|s| s.to_string()).collect(),
        full_path: rel.join("/"),
        kind,
    }
}

fn contents_of(full_path: &str) -> &'static [u8] {
    match full_path {
        "a.txt" => b"hello",
        "sub/b.txt" => b"world",
        _ => b"",
    }
}

fn write_zip(prefix: Option<&str>) -> Vec<u8> {
    let tree = vec![
        entry(&[], EntryKind::Directory),
        entry(&["a.txt"], EntryKind::File),
        entry(&["sub"], EntryKind::Directory),
        entry(&["sub", "b.txt"], EntryKind::File),
        entry(&["sub", "empty"], EntryKind::Directory),
    ];
    let prefix = root_prefix(prefix);
    let ops = plan_zip(&prefix, &tree).unwrap();
    let options = zip::write::FileOptions::default().compression_method(zip::CompressionMethod::Stored);
    let mut zip = zip::ZipWriter::new(Cursor::new(Vec::new()));
    let files: Vec<&WalkEntry> = tree.iter().filter(|e| e.kind == EntryKind::File).collect();
    let mut next_file = 0;
    for op in &ops {
        match op {
            ZipOp::AddDirectory(name) => zip.add_directory(name.clone(), options).unwrap(),
            ZipOp::AddFile(name) => {
                zip.start_file(name.clone(), options).unwrap();
                zip.write_all(contents_of(&files[next_file].full_path)).unwrap();
                next_file += 1;
            }
        }
    }
    zip.finish().unwrap().into_inner()
}

fn read_zip(bytes: Vec<u8>) -> Vec<(String, String)> {
    let mut archive = zip::ZipArchive::new(Cursor::new(bytes)).unwrap();
    let mut out = Vec::new();
    for i in 0..archive.len() {
        let mut f = archive.by_index(i).unwrap();
        let mut text = String::new();
        f.read_to_string(&mut text).unwrap();
        out.push((f.name().to_string(), text));
    }
    out.sort();
    out
}

#[test]
fn zip_with_prefix_reads_back_every_entry() {
    let got = read_zip(write_zip(Some("pkg")));
    let want: Vec<(String, String)> = vec![
        ("pkg/", ""),
        ("pkg/a.txt", "hello"),
        ("pkg/sub/", ""),
        ("pkg/sub/b.txt", "world"),
        ("pkg/sub/empty/", ""),
    ]
    .into_iter()
    .map(|(a, b)| (a.to_string(), b.to_string()))
    .collect();
    assert_eq!(got, want);
}

#[test]
fn zip_without_prefix_reads_back_the_tree() {
    let got = read_zip(write_zip(None));
    let want: Vec<(String, String)> = vec![
        ("a.txt", "hello"),
        ("sub/", ""),
        ("sub/b.txt", "world"),
        ("sub/empty/", ""),
    ]
    .into_iter()
    .map(|(a, b)| (a.to_string(), b.to_string()))
    .collect();
    assert_eq!(got, want);
}
