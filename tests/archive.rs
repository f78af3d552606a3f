use axoasset::archive::{
    compression_level, gzip_member_name, plan_zip, prefix_directories, root_prefix,
    stage_failure, tar_root_name, zip_entry_op, ArchiveFormat, ArchiveJob, ArchiveStage,
    CompressionKind, EntryKind, WalkEntry, ZipOp,
};
use axoasset::paths::{join_components, path_components};
use axoasset::AxoassetError;

fn entry(rel: &[&str], kind: EntryKind) -> WalkEntry {
    WalkEntry {
        rel_path: rel.iter().map(|s| s.to_string()).collect(),
        full_path: format!("/src/{}", rel.join("/")),
        kind,
    }
}

fn scenario_tree() -> Vec<WalkEntry> {
    vec![
        entry(&[], EntryKind::Directory),
        entry(&["a.txt"], EntryKind::File),
        entry(&["sub"], EntryKind::Directory),
        entry(&["sub", "b.txt"], EntryKind::File),
        entry(&["sub", "empty"], EntryKind::Directory),
    ]
}

fn strings(v: &[&str]) -> Vec<String> {
    v.iter().map(|s| s.to_string()).collect()
}

fn io_error() -> std::io::Error {
    std::io::Error::new(std::io::ErrorKind::Other, "disk on fire")
}

#[test]
fn components_skip_empty_and_dot_segments() {
    assert_eq!(path_components("a/b/c"), strings(&["a", "b", "c"]));
    assert_eq!(path_components("./a//b/"), strings(&["a", "b"]));
    assert_eq!(path_components("/pkg"), strings(&["pkg"]));
    assert_eq!(path_components(""), Vec::<String>::new());
    assert_eq!(path_components("."), Vec::<String>::new());
    assert_eq!(path_components("a/../b"), strings(&["a", "..", "b"]));
}

#[test]
fn components_are_joined_with_slashes() {
    let head = strings(&["a", "b", "c"]);
    let tail = strings(&["d"]);
    assert_eq!(join_components(&head, 3, &tail), "a/b/c/d");
    assert_eq!(join_components(&head, 1, &tail), "a/d");
    assert_eq!(join_components(&head, 2, &Vec::new()), "a/b");
    assert_eq!(join_components(&Vec::new(), 0, &Vec::new()), "");
}

#[test]
fn prefix_ancestors_deepest_first() {
    let prefix = root_prefix(Some("a/b/c"));
    let ops = prefix_directories(&prefix);
    assert_eq!(
        ops,
        vec![
            ZipOp::AddDirectory("a/b/c/".to_string()),
            ZipOp::AddDirectory("a/b/".to_string()),
            ZipOp::AddDirectory("a/".to_string()),
        ]
    );
    assert!(prefix_directories(&root_prefix(None)).is_empty());
}

#[test]
fn zip_with_prefix_scenario() {
    let prefix = root_prefix(Some("pkg"));
    let ops = plan_zip(&prefix, &scenario_tree()).unwrap();
    assert_eq!(
        ops,
        vec![
            ZipOp::AddDirectory("pkg/".to_string()),
            ZipOp::AddFile("pkg/a.txt".to_string()),
            ZipOp::AddDirectory("pkg/sub/".to_string()),
            ZipOp::AddFile("pkg/sub/b.txt".to_string()),
            ZipOp::AddDirectory("pkg/sub/empty/".to_string()),
        ]
    );
}

#[test]
fn zip_without_prefix_keeps_relative_paths() {
    let ops = plan_zip(&root_prefix(None), &scenario_tree()).unwrap();
    assert_eq!(
        ops,
        vec![
            ZipOp::AddFile("a.txt".to_string()),
            ZipOp::AddDirectory("sub/".to_string()),
            ZipOp::AddFile("sub/b.txt".to_string()),
            ZipOp::AddDirectory("sub/empty/".to_string()),
        ]
    );
}

#[test]
fn zip_nested_prefix_entries_stay_inside() {
    let prefix = root_prefix(Some("a/b"));
    let ops = plan_zip(&prefix, &scenario_tree()).unwrap();
    let names: Vec<String> = ops
        .iter()
        .map(|op| match op {
            ZipOp::AddDirectory(n) => n.clone(),
            ZipOp::AddFile(n) => n.clone(),
        })
        .collect();
    assert_eq!(names[0], "a/b/");
    assert_eq!(names[1], "a/");
    for n in &names[2..] {
        assert!(n.starts_with("a/b/"), "{n}");
    }
}

#[test]
fn symlink_fails_the_zip_pipeline() {
    let mut tree = scenario_tree();
    tree.push(entry(&["sub", "link"], EntryKind::Other));
    tree.push(entry(&["z.txt"], EntryKind::File));
    match plan_zip(&root_prefix(None), &tree) {
        Err(AxoassetError::ArchiveUnsupportedEntry { entry_path }) => {
            assert_eq!(entry_path, "/src/sub/link")
        }
        other => panic!("unexpected: {other:?}"),
    }
}

#[test]
fn walk_root_gets_no_entry() {
    let root = entry(&[], EntryKind::Directory);
    assert!(zip_entry_op(&Vec::new(), &root).unwrap().is_none());
    assert!(zip_entry_op(&strings(&["pkg"]), &root).unwrap().is_none());
    let empty = entry(&["empty"], EntryKind::Directory);
    assert_eq!(
        zip_entry_op(&Vec::new(), &empty).unwrap(),
        Some(ZipOp::AddDirectory("empty/".to_string()))
    );
}

#[test]
fn tar_root_is_the_joined_prefix() {
    assert_eq!(tar_root_name(&root_prefix(None)), "");
    assert_eq!(tar_root_name(&root_prefix(Some("some/dir/"))), "some/dir");
}

#[test]
fn gzip_names_its_tar_member() {
    assert_eq!(gzip_member_name("out/dest.tar.gz").unwrap(), "dest.tar.gz.tar");
    assert!(matches!(
        gzip_member_name("/"),
        Err(AxoassetError::LocalAssetMissingFilename { .. })
    ));
}

#[test]
fn xz_uses_its_highest_level() {
    assert_eq!(compression_level(CompressionKind::Xzip), Some(9));
    assert_eq!(compression_level(CompressionKind::Gzip), None);
    assert_eq!(compression_level(CompressionKind::Zstd), None);
}

#[test]
fn stage_failures_are_distinct() {
    match stage_failure(ArchiveStage::CreateDestination, "src", "dest.zip", io_error()) {
        AxoassetError::LocalAssetWriteNewFailed { dest_path, .. } => assert_eq!(dest_path, "dest.zip"),
        other => panic!("unexpected: {other:?}"),
    }
    match stage_failure(ArchiveStage::CreateEncoder, "src", "d.tar.zstd", io_error()) {
        AxoassetError::ArchiveEncoderFailed { dest_path, .. } => assert_eq!(dest_path, "d.tar.zstd"),
        other => panic!("unexpected: {other:?}"),
    }
    match stage_failure(ArchiveStage::WriteEntries, "src", "d.tar.gz", io_error()) {
        AxoassetError::ArchiveWriteFailed { src_path, dest_path, .. } => {
            assert_eq!(src_path, "src");
            assert_eq!(dest_path, "d.tar.gz");
        }
        other => panic!("unexpected: {other:?}"),
    }
    match stage_failure(ArchiveStage::FinishEncoder, "src", "d.tar.xz", io_error()) {
        AxoassetError::ArchiveFinalizeFailed { stage, .. } => {
            assert_eq!(stage, ArchiveStage::FinishEncoder)
        }
        other => panic!("unexpected: {other:?}"),
    }
}

#[test]
fn tar_job_runs_its_stages_in_order() {
    let mut job = ArchiveJob::new(ArchiveFormat::Tar(CompressionKind::Gzip), "src", "d.tar.gz", None);
    let mut seen = vec![job.next_stage().unwrap()];
    while let Some(stage) = job.record(Ok(())).unwrap() {
        seen.push(stage);
    }
    assert_eq!(
        seen,
        vec![
            ArchiveStage::CreateDestination,
            ArchiveStage::CreateEncoder,
            ArchiveStage::WriteEntries,
            ArchiveStage::FinishContainer,
            ArchiveStage::FinishEncoder,
        ]
    );
    assert_eq!(job.next_stage(), None);
}

#[test]
fn zip_job_stops_at_the_failed_stage() {
    let mut job = ArchiveJob::new(ArchiveFormat::Zip, "src", "d.zip", Some("pkg"));
    assert_eq!(job.prefix, strings(&["pkg"]));
    assert_eq!(job.record(Ok(())).unwrap(), Some(ArchiveStage::WriteEntries));
    assert_eq!(job.record(Ok(())).unwrap(), Some(ArchiveStage::FinishContainer));
    match job.record(Err(io_error())) {
        Err(AxoassetError::ArchiveFinalizeFailed { stage, dest_path, .. }) => {
            assert_eq!(stage, ArchiveStage::FinishContainer);
            assert_eq!(dest_path, "d.zip");
        }
        other => panic!("unexpected: {other:?}"),
    }
    assert_eq!(job.next_stage(), Some(ArchiveStage::FinishContainer));
}

#[test]
fn missing_parent_is_a_destination_failure() {
    let mut job = ArchiveJob::new(ArchiveFormat::Tar(CompressionKind::Xzip), "src", "/no/such/dir/d.tar.xz", None);
    let err = std::io::Error::new(std::io::ErrorKind::NotFound, "no parent");
    match job.record(Err(err)) {
        Err(AxoassetError::LocalAssetWriteNewFailed { dest_path, details }) => {
            assert_eq!(dest_path, "/no/such/dir/d.tar.xz");
            assert_eq!(details.kind(), std::io::ErrorKind::NotFound);
        }
        other => panic!("unexpected: {other:?}"),
    }
}
