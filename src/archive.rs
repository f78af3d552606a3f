//! Turning a directory tree into a tar or zip archive.
//!
//! The caller walks the tree, opens the destination and drives the container
//! and compressor streams; this module decides the in-archive names, which
//! entries a zip archive receives and in which order, and the order of the
//! stages of a pipeline and the error that a failure in each becomes.

use vstd::prelude::*;

use crate::error::AxoassetError;
use crate::local::{file_name_of, path_file_name};
use crate::paths::{
    components, is_blank_segment, join_components, join_path, lemma_components_nonblank, lemma_join_append,
    lemma_join_nonempty, path_components,
};

verus! {

/// The byte-stream compressor wrapped around a tar container.
#[derive(Debug, Clone, Copy, PartialEq, Eq, Structural)]
pub enum CompressionKind {
    /// `.tar.gz`
    Gzip,
    /// `.tar.xz`
    Xzip,
    /// `.tar.zstd`
    Zstd,
}

/// What kind of filesystem object a walk found.
#[derive(Debug, Clone, Copy, PartialEq, Eq, Structural)]
pub enum EntryKind {
    /// A regular file
    File,
    /// A directory
    Directory,
    /// Anything else: a symlink, a device, a socket
    Other,
}

/// An object found under the root of a directory walk.
#[derive(Debug)]
pub struct WalkEntry {
    /// The path relative to the walk root, component by component; empty
    /// for the root itself.
    pub rel_path: Vec<String>,
    /// The path of the object on the filesystem
    pub full_path: String,
    /// What the object is
    pub kind: EntryKind,
}

impl View for WalkEntry {
    type V = (Seq<Seq<char>>, EntryKind);

    open spec fn view(&self) -> (Seq<Seq<char>>, EntryKind) {
        (self.rel_path.deep_view(), self.kind)
    }
}

/// One entry written into a zip archive.
#[derive(Debug, PartialEq, Eq)]
pub enum ZipOp {
    /// A directory entry; the name ends with `/`.
    AddDirectory(String),
    /// A file entry, stored uncompressed, holding the whole file.
    AddFile(String),
}

/// An entry of an archive, by kind and name.
pub enum ArchivedEntry {
    /// A directory entry and its name
    Directory(Seq<char>),
    /// A file entry and its name
    File(Seq<char>),
}

impl View for ZipOp {
    type V = ArchivedEntry;

    open spec fn view(&self) -> ArchivedEntry {
        match self {
            ZipOp::AddDirectory(name) => ArchivedEntry::Directory(name@),
            ZipOp::AddFile(name) => ArchivedEntry::File(name@),
        }
    }
}

/// The entries that a list of zip operations writes.
pub open spec fn ops_view(ops: Seq<ZipOp>) -> Seq<ArchivedEntry> {
    Seq::new(ops.len(), |i: int| ops[i]@)
}

/// What a walk found: each object's relative path and kind.
pub open spec fn walk_view(entries: Seq<WalkEntry>) -> Seq<(Seq<Seq<char>>, EntryKind)> {
    Seq::new(entries.len(), |i: int| entries[i]@)
}

/// The name of a directory entry: its path with a trailing `/`.
pub open spec fn dir_entry_name(parts: Seq<Seq<char>>) -> Seq<char> {
    join_path(parts) + seq!['/']
}

/// The explicit directory entries of a root prefix: one for each of its
/// ancestors, the deepest first (`a/b/c/`, `a/b/`, `a/`).
pub open spec fn prefix_entries(prefix: Seq<Seq<char>>) -> Seq<ArchivedEntry> {
    Seq::new(
        prefix.len(),
        |i: int| ArchivedEntry::Directory(dir_entry_name(prefix.subrange(0, prefix.len() - i))),
    )
}

/// The zip entry for one walked object: `None` where the object cannot be
/// archived; `Some(None)` for the walk root, which gets no entry of its own.
pub open spec fn zip_entry_for(
    prefix: Seq<Seq<char>>,
    entry: (Seq<Seq<char>>, EntryKind),
) -> Option<Option<ArchivedEntry>> {
    let (rel, kind) = entry;
    match kind {
        EntryKind::File => Some(Some(ArchivedEntry::File(join_path(prefix + rel)))),
        EntryKind::Directory => if rel.len() == 0 {
            Some(None)
        } else {
            Some(Some(ArchivedEntry::Directory(dir_entry_name(prefix + rel))))
        },
        EntryKind::Other => None,
    }
}

/// The entries that the walked objects give, in walk order; `None` if one
/// of them cannot be archived.
pub open spec fn walk_plan(
    prefix: Seq<Seq<char>>,
    entries: Seq<(Seq<Seq<char>>, EntryKind)>,
) -> Option<Seq<ArchivedEntry>>
    decreases entries.len(),
{
    if entries.len() == 0 {
        Some(Seq::empty())
    } else {
        match walk_plan(prefix, entries.drop_last()) {
            Some(done) => match zip_entry_for(prefix, entries.last()) {
                Some(Some(e)) => Some(done.push(e)),
                Some(None) => Some(done),
                None => None,
            },
            None => None,
        }
    }
}

/// Every entry of the zip archive of a walked tree, in the order written:
/// the directories of the prefix, then one entry per walked object.
pub open spec fn zip_plan(
    prefix: Seq<Seq<char>>,
    entries: Seq<(Seq<Seq<char>>, EntryKind)>,
) -> Option<Seq<ArchivedEntry>> {
    match walk_plan(prefix, entries) {
        Some(p) => Some(prefix_entries(prefix) + p),
        None => None,
    }
}

/// The components of an optional root prefix; none without one.
pub open spec fn prefix_components(with_root: Option<Seq<char>>) -> Seq<Seq<char>> {
    match with_root {
        Some(r) => components(r),
        None => Seq::empty(),
    }
}

/// Splits an optional root prefix into the components under which the
/// tree is placed in an archive.
pub fn root_prefix(with_root: Option<&str>) -> (r: Vec<String>)
    ensures
        r.deep_view() == prefix_components(
            match with_root {
                Some(s) => Some(s@),
                None => None,
            },
        ),
{
    match with_root {
        Some(s) => path_components(s),
        None => Vec::new(),
    }
}

/// The in-archive path under which a tar archive holds the tree: the
/// prefix joined with `/`, empty (the archive root) without one.
pub fn tar_root_name(prefix: &Vec<String>) -> (r: String)
    ensures
        r@ == join_path(prefix.deep_view()),
{
    let none: Vec<String> = Vec::new();
    let r = join_components(prefix, prefix.len(), &none);
    proof {
        assert(prefix.deep_view().subrange(0, prefix.len() as int) + none.deep_view()
            =~= prefix.deep_view());
    }
    r
}

/// The directory entries that a zip archive holds for its root prefix,
/// the deepest ancestor first.
pub fn prefix_directories(prefix: &Vec<String>) -> (r: Vec<ZipOp>)
    ensures
        ops_view(r@) == prefix_entries(prefix.deep_view()),
{
    let ghost p = prefix.deep_view();
    let none: Vec<String> = Vec::new();
    let mut out: Vec<ZipOp> = Vec::new();
    let mut k: usize = prefix.len();
    while k > 0
        invariant
            p == prefix.deep_view(),
            none.deep_view() == Seq::<Seq<char>>::empty(),
            k <= prefix.len(),
            out.len() == prefix.len() - k,
            ops_view(out@) == prefix_entries(p).subrange(0, prefix.len() - k),
        decreases k,
    {
        proof {
            reveal_strlit("/");
        }
        let mut name = join_components(prefix, k, &none);
        name.append("/");
        proof {
            assert(p.subrange(0, k as int) + none.deep_view() =~= p.subrange(0, k as int));
        }
        assert(name@ == dir_entry_name(p.subrange(0, k as int)));
        let op = ZipOp::AddDirectory(name);
        let ghost before = out@;
        out.push(op);
        proof {
            let i = prefix.len() - k;
            assert(prefix_entries(p)[i] == op@);
            assert(out@ == before.push(op));
            assert(ops_view(out@) =~= ops_view(before).push(op@));
            assert(prefix_entries(p).subrange(0, i + 1) =~= prefix_entries(p).subrange(0, i).push(op@));
        }
        k = k - 1;
    }
    assert(prefix_entries(p).subrange(0, prefix.len() as int) =~= prefix_entries(p));
    out
}

/// Decides the zip entry for one walked object: a directory entry for a
/// directory (none for the walk root itself), a stored file entry for a
/// regular file, and a failure for anything else.
pub fn zip_entry_op(prefix: &Vec<String>, entry: &WalkEntry) -> (r: Result<Option<ZipOp>, AxoassetError>)
    ensures
        match r {
            Ok(Some(op)) => zip_entry_for(prefix.deep_view(), entry@) == Some(Some(op@)),
            Ok(None) => zip_entry_for(prefix.deep_view(), entry@) == Some(None::<ArchivedEntry>),
            Err(e) => zip_entry_for(prefix.deep_view(), entry@) is None
                && e is ArchiveUnsupportedEntry
                && e->ArchiveUnsupportedEntry_entry_path@ == entry.full_path@,
        },
{
    proof {
        reveal_strlit("/");
    }
    match entry.kind {
        EntryKind::File => {
            let name = join_components(prefix, prefix.len(), &entry.rel_path);
            assert(prefix.deep_view().subrange(0, prefix.len() as int) =~= prefix.deep_view());
            assert(name@ == join_path(prefix.deep_view() + entry@.0));
            let op = ZipOp::AddFile(name);
            assert(op@ == ArchivedEntry::File(join_path(prefix.deep_view() + entry@.0)));
            Ok(Some(op))
        },
        EntryKind::Directory => {
            if entry.rel_path.len() == 0 {
                Ok(None)
            } else {
                let mut name = join_components(prefix, prefix.len(), &entry.rel_path);
                assert(prefix.deep_view().subrange(0, prefix.len() as int) =~= prefix.deep_view());
                name.append("/");
                assert(name@ == dir_entry_name(prefix.deep_view() + entry@.0));
                let op = ZipOp::AddDirectory(name);
                assert(op@ == ArchivedEntry::Directory(dir_entry_name(prefix.deep_view() + entry@.0)));
                Ok(Some(op))
            }
        },
        EntryKind::Other => Err(
            AxoassetError::ArchiveUnsupportedEntry { entry_path: entry.full_path.clone() },
        ),
    }
}

/// Once an object that cannot be archived has been walked, no later object
/// makes the walk archivable again.
proof fn lemma_walk_plan_stays_none(
    prefix: Seq<Seq<char>>,
    entries: Seq<(Seq<Seq<char>>, EntryKind)>,
    k: int,
)
    requires
        0 <= k <= entries.len(),
        walk_plan(prefix, entries.subrange(0, k)) is None,
    ensures
        walk_plan(prefix, entries) is None,
    decreases entries.len() - k,
{
    if k < entries.len() {
        assert(entries.subrange(0, k + 1).drop_last() =~= entries.subrange(0, k));
        lemma_walk_plan_stays_none(prefix, entries, k + 1);
    } else {
        assert(entries.subrange(0, k) =~= entries);
    }
}

/// Decides every entry of the zip archive of a walked tree, in the order
/// they are written: the directories of the prefix, then one entry per
/// walked object; fails on the first object that cannot be archived.
pub fn plan_zip(prefix: &Vec<String>, entries: &Vec<WalkEntry>) -> (r: Result<Vec<ZipOp>, AxoassetError>)
    ensures
        match r {
            Ok(ops) => zip_plan(prefix.deep_view(), walk_view(entries@)) == Some(ops_view(ops@)),
            Err(e) => zip_plan(prefix.deep_view(), walk_view(entries@)) is None
                && e is ArchiveUnsupportedEntry
                && exists|i: int| 0 <= i < entries.len()
                    && entries[i].kind == EntryKind::Other
                    && e->ArchiveUnsupportedEntry_entry_path@ == entries[i].full_path@,
        },
{
    let ghost p = prefix.deep_view();
    let ghost all = walk_view(entries@);
    let mut out = prefix_directories(prefix);
    let ghost mut tail: Seq<ArchivedEntry> = Seq::empty();
    let mut i: usize = 0;
    assert(all.subrange(0, 0) =~= Seq::<(Seq<Seq<char>>, EntryKind)>::empty());
    assert(ops_view(out@) =~= prefix_entries(p) + tail);
    while i < entries.len()
        invariant
            p == prefix.deep_view(),
            all == walk_view(entries@),
            i <= entries.len(),
            walk_plan(p, all.subrange(0, i as int)) == Some(tail),
            ops_view(out@) == prefix_entries(p) + tail,
        decreases entries.len() - i,
    {
        let ghost sub = all.subrange(0, i + 1);
        assert(sub.drop_last() =~= all.subrange(0, i as int));
        assert(sub.last() == entries[i as int]@);
        match zip_entry_op(prefix, &entries[i]) {
            Ok(Some(op)) => {
                let ghost before = out@;
                out.push(op);
                proof {
                    assert(out@ == before.push(op));
                    assert(ops_view(out@) =~= ops_view(before).push(op@));
                    tail = tail.push(op@);
                    assert(ops_view(out@) =~= prefix_entries(p) + tail);
                }
            },
            Ok(None) => {},
            Err(e) => {
                proof {
                    lemma_walk_plan_stays_none(p, all, i + 1);
                }
                return Err(e);
            },
        }
        i = i + 1;
    }
    assert(all.subrange(0, entries.len() as int) =~= all);
    Ok(out)
}

/// The four archive formats.
#[derive(Debug, Clone, Copy, PartialEq, Eq, Structural)]
pub enum ArchiveFormat {
    /// A tar container inside a compressor
    Tar(CompressionKind),
    /// A zip container whose entries are stored uncompressed
    Zip,
}

/// A step of an archive pipeline; each can fail on its own.
#[derive(Debug, Clone, Copy, PartialEq, Eq, Structural)]
pub enum ArchiveStage {
    /// Create (or truncate) the destination file.
    CreateDestination,
    /// Wrap the destination in the compressor.
    CreateEncoder,
    /// Write the tree into the container.
    WriteEntries,
    /// Write the container's closing metadata (the tar end-of-archive
    /// marker, the zip central directory).
    FinishContainer,
    /// Flush the compressor and write its trailer.
    FinishEncoder,
}

/// The stages of a pipeline, in the order performed: the container is
/// finished before the compressor around it.
pub open spec fn stage_plan(format: ArchiveFormat) -> Seq<ArchiveStage> {
    match format {
        ArchiveFormat::Tar(_) => seq![
            ArchiveStage::CreateDestination,
            ArchiveStage::CreateEncoder,
            ArchiveStage::WriteEntries,
            ArchiveStage::FinishContainer,
            ArchiveStage::FinishEncoder,
        ],
        ArchiveFormat::Zip => seq![
            ArchiveStage::CreateDestination,
            ArchiveStage::WriteEntries,
            ArchiveStage::FinishContainer,
        ],
    }
}

/// What a failure of `stage` is reported as.
pub open spec fn is_stage_failure(
    e: AxoassetError,
    stage: ArchiveStage,
    src_path: Seq<char>,
    dest_path: Seq<char>,
    details: std::io::Error,
) -> bool {
    match stage {
        ArchiveStage::CreateDestination => e is LocalAssetWriteNewFailed
            && e->LocalAssetWriteNewFailed_dest_path@ == dest_path
            && e->LocalAssetWriteNewFailed_details == details,
        ArchiveStage::CreateEncoder => e is ArchiveEncoderFailed
            && e->ArchiveEncoderFailed_dest_path@ == dest_path
            && e->ArchiveEncoderFailed_details == details,
        ArchiveStage::WriteEntries => e is ArchiveWriteFailed
            && e->ArchiveWriteFailed_src_path@ == src_path
            && e->ArchiveWriteFailed_dest_path@ == dest_path
            && e->ArchiveWriteFailed_details == details,
        _ => e is ArchiveFinalizeFailed
            && e->ArchiveFinalizeFailed_dest_path@ == dest_path
            && e->ArchiveFinalizeFailed_stage == stage
            && e->ArchiveFinalizeFailed_details == details,
    }
}

/// The error that a failure of `stage` becomes.
pub fn stage_failure(
    stage: ArchiveStage,
    src_path: &str,
    dest_path: &str,
    details: std::io::Error,
) -> (e: AxoassetError)
    ensures
        is_stage_failure(e, stage, src_path@, dest_path@, details),
{
    match stage {
        ArchiveStage::CreateDestination => AxoassetError::LocalAssetWriteNewFailed {
            dest_path: dest_path.to_string(),
            details,
        },
        ArchiveStage::CreateEncoder => AxoassetError::ArchiveEncoderFailed {
            dest_path: dest_path.to_string(),
            details,
        },
        ArchiveStage::WriteEntries => AxoassetError::ArchiveWriteFailed {
            src_path: src_path.to_string(),
            dest_path: dest_path.to_string(),
            details,
        },
        _ => AxoassetError::ArchiveFinalizeFailed { dest_path: dest_path.to_string(), stage, details },
    }
}

/// One archive operation: which format, from where, to where, under which
/// prefix, and how many of its stages have succeeded.
#[derive(Debug)]
pub struct ArchiveJob {
    /// The format written
    pub format: ArchiveFormat,
    /// The directory archived
    pub src_path: String,
    /// The archive file written
    pub dest_path: String,
    /// The components under which the tree is placed in the archive
    pub prefix: Vec<String>,
    /// How many stages of the format's plan have succeeded, in order
    pub completed: usize,
}

impl ArchiveJob {
    /// How many stages have succeeded, in order.
    pub open spec fn completed(&self) -> nat {
        self.completed as nat
    }

    pub open spec fn wf(&self) -> bool {
        self.completed <= stage_plan(self.format).len()
    }

    /// The stage to perform next, if any is left.
    pub open spec fn pending(&self) -> Option<ArchiveStage> {
        if self.completed() < stage_plan(self.format).len() {
            Some(stage_plan(self.format)[self.completed() as int])
        } else {
            None
        }
    }

    /// Starts an archive operation; no stage has been performed.
    pub fn new(format: ArchiveFormat, src_path: &str, dest_path: &str, with_root: Option<&str>) -> (r: Self)
        ensures
            r.wf(),
            r.format == format,
            r.src_path@ == src_path@,
            r.dest_path@ == dest_path@,
            r.prefix.deep_view() == prefix_components(
                match with_root {
                    Some(s) => Some(s@),
                    None => None,
                },
            ),
            r.completed() == 0,
    {
        ArchiveJob {
            format,
            src_path: src_path.to_string(),
            dest_path: dest_path.to_string(),
            prefix: root_prefix(with_root),
            completed: 0,
        }
    }

    /// The stage to perform next; `None` once every stage has succeeded.
    pub fn next_stage(&self) -> (r: Option<ArchiveStage>)
        requires
            self.wf(),
        ensures
            r == self.pending(),
    {
        let k = self.completed;
        match self.format {
            ArchiveFormat::Tar(_) => {
                if k == 0 {
                    Some(ArchiveStage::CreateDestination)
                } else if k == 1 {
                    Some(ArchiveStage::CreateEncoder)
                } else if k == 2 {
                    Some(ArchiveStage::WriteEntries)
                } else if k == 3 {
                    Some(ArchiveStage::FinishContainer)
                } else if k == 4 {
                    Some(ArchiveStage::FinishEncoder)
                } else {
                    None
                }
            },
            ArchiveFormat::Zip => {
                if k == 0 {
                    Some(ArchiveStage::CreateDestination)
                } else if k == 1 {
                    Some(ArchiveStage::WriteEntries)
                } else if k == 2 {
                    Some(ArchiveStage::FinishContainer)
                } else {
                    None
                }
            },
        }
    }

    /// Records how the pending stage went. On success the job moves on and
    /// the next stage is returned (`None` when the archive is complete); a
    /// failure ends the operation with the error of that stage.
    pub fn record(&mut self, outcome: Result<(), std::io::Error>) -> (r: Result<
        Option<ArchiveStage>,
        AxoassetError,
    >)
        requires
            old(self).wf(),
            old(self).pending() is Some,
        ensures
            final(self).wf(),
            final(self).format == old(self).format,
            final(self).src_path == old(self).src_path,
            final(self).dest_path == old(self).dest_path,
            final(self).prefix == old(self).prefix,
            match outcome {
                Ok(()) => final(self).completed() == old(self).completed() + 1 && r == Ok::<
                    Option<ArchiveStage>,
                    AxoassetError,
                >(final(self).pending()),
                Err(d) => final(self).completed() == old(self).completed() && r is Err
                    && is_stage_failure(
                    r->Err_0,
                    old(self).pending()->Some_0,
                    old(self).src_path@,
                    old(self).dest_path@,
                    d,
                ),
            },
    {
        let stage = match self.next_stage() {
            Some(s) => s,
            None => ArchiveStage::CreateDestination,
        };
        match outcome {
            Ok(()) => {
                self.completed = self.completed + 1;
                Ok(self.next_stage())
            },
            Err(d) => Err(stage_failure(stage, self.src_path.as_str(), self.dest_path.as_str(), d)),
        }
    }
}

/// The compression level asked of the compressor: `None` for its own
/// default, as for gzip and zstd; xz uses its highest level.
pub fn compression_level(kind: CompressionKind) -> (r: Option<u32>)
    ensures
        r == match kind {
            CompressionKind::Xzip => Some(9u32),
            _ => None,
        },
{
    match kind {
        CompressionKind::Xzip => Some(9),
        _ => None,
    }
}

/// The file name that a gzip stream records for its contents: the
/// destination's file name followed by `.tar`.
pub fn gzip_member_name(dest_path: &str) -> (r: Result<String, AxoassetError>)
    ensures
        match r {
            Ok(name) => exists|f: Seq<char>|
                path_file_name(dest_path@) == Some(f) && name@ == f + seq!['.', 't', 'a', 'r'],
            Err(e) => path_file_name(dest_path@) is None && e is LocalAssetMissingFilename
                && e->LocalAssetMissingFilename_origin_path@ == dest_path@,
        },
{
    match file_name_of(dest_path) {
        Some(name) => {
            let ghost f = name@;
            let mut name = name;
            name.append(".tar");
            proof {
                reveal_strlit(".tar");
                assert(name@ =~= f + seq!['.', 't', 'a', 'r']);
            }
            Ok(name)
        },
        None => Err(AxoassetError::LocalAssetMissingFilename { origin_path: dest_path.to_string() }),
    }
}

/// The name of an archive entry.
pub open spec fn entry_path(e: ArchivedEntry) -> Seq<char> {
    match e {
        ArchivedEntry::Directory(n) => n,
        ArchivedEntry::File(n) => n,
    }
}

/// A walk as the walker reports it: the only object with an empty
/// relative path is the root, a directory.
pub open spec fn is_rooted_walk(entries: Seq<(Seq<Seq<char>>, EntryKind)>) -> bool {
    forall|i: int| 0 <= i < entries.len() && (#[trigger] entries[i]).0.len() == 0
        ==> entries[i].1 == EntryKind::Directory
}

/// A walk as the walker reports it: rooted, and every component of every
/// relative path non-empty.
pub open spec fn is_walk(entries: Seq<(Seq<Seq<char>>, EntryKind)>) -> bool {
    &&& is_rooted_walk(entries)
    &&& forall|i: int, j: int| 0 <= i < entries.len() && 0 <= j < entries[i].0.len()
        ==> (#[trigger] entries[i].0[j]).len() > 0
}

/// Every entry that the walked objects give comes from one of them, and
/// every object that gets an entry has it in the plan.
proof fn lemma_walk_plan_entries(prefix: Seq<Seq<char>>, entries: Seq<(Seq<Seq<char>>, EntryKind)>)
    requires
        walk_plan(prefix, entries) is Some,
    ensures
        forall|j: int| #![trigger walk_plan(prefix, entries)->Some_0[j]]
            0 <= j < walk_plan(prefix, entries)->Some_0.len()
            ==> exists|i: int| 0 <= i < entries.len()
                && zip_entry_for(prefix, #[trigger] entries[i]) == Some(Some(
                    walk_plan(prefix, entries)->Some_0[j],
                )),
        forall|i: int| 0 <= i < entries.len()
            ==> (#[trigger] zip_entry_for(prefix, entries[i])) is Some
                && match zip_entry_for(prefix, entries[i]) {
                    Some(Some(x)) => walk_plan(prefix, entries)->Some_0.contains(x),
                    _ => true,
                },
    decreases entries.len(),
{
    if entries.len() > 0 {
        let init = entries.drop_last();
        lemma_walk_plan_entries(prefix, init);
        let p0 = walk_plan(prefix, init)->Some_0;
        let p = walk_plan(prefix, entries)->Some_0;
        assert forall|j: int| #![trigger p[j]] 0 <= j < p.len() implies exists|i: int| 0 <= i < entries.len()
            && zip_entry_for(prefix, #[trigger] entries[i]) == Some(Some(p[j])) by {
            if j < p0.len() {
                assert(p[j] == p0[j]);
                let i = choose|i: int| 0 <= i < init.len()
                    && zip_entry_for(prefix, #[trigger] init[i]) == Some(Some(p0[j]));
                assert(entries[i] == init[i]);
            } else {
                assert(entries[entries.len() - 1] == entries.last());
            }
        }
        assert forall|i: int| 0 <= i < entries.len() implies (#[trigger] zip_entry_for(
            prefix,
            entries[i],
        )) is Some && match zip_entry_for(prefix, entries[i]) {
            Some(Some(x)) => p.contains(x),
            _ => true,
        } by {
            if i < init.len() {
                assert(entries[i] == init[i]);
                if let Some(Some(x)) = zip_entry_for(prefix, init[i]) {
                    let k = choose|k: int| 0 <= k < p0.len() && p0[k] == x;
                    assert(p[k] == x);
                }
            } else {
                assert(entries[i] == entries.last());
                if let Some(Some(x)) = zip_entry_for(prefix, entries.last()) {
                    assert(p[p.len() - 1] == x);
                }
            }
        }
    }
}

/// A walk is archivable exactly when it found nothing but files and
/// directories: a symlink or any other object fails the zip pipeline
/// rather than being left out.
pub proof fn lemma_unsupported_entry_fails(prefix: Seq<Seq<char>>, entries: Seq<(Seq<Seq<char>>, EntryKind)>)
    ensures
        zip_plan(prefix, entries) is None <==> exists|i: int|
            0 <= i < entries.len() && (#[trigger] entries[i]).1 == EntryKind::Other,
    decreases entries.len(),
{
    if entries.len() > 0 {
        let init = entries.drop_last();
        lemma_unsupported_entry_fails(prefix, init);
        if exists|i: int| 0 <= i < init.len() && (#[trigger] init[i]).1 == EntryKind::Other {
            let i = choose|i: int| 0 <= i < init.len() && (#[trigger] init[i]).1 == EntryKind::Other;
            assert(entries[i] == init[i]);
        }
        if exists|i: int| 0 <= i < entries.len() && (#[trigger] entries[i]).1 == EntryKind::Other {
            let i = choose|i: int| 0 <= i < entries.len() && (#[trigger] entries[i]).1 == EntryKind::Other;
            if i < init.len() {
                assert(init[i] == entries[i]);
            }
        }
    }
}

/// Under a non-empty root prefix, every entry of a zip archive is either
/// the directory entry of one of the prefix's ancestors (the prefix itself
/// included) or lies inside the prefix.
pub proof fn lemma_entries_inside_prefix(prefix: Seq<Seq<char>>, entries: Seq<(Seq<Seq<char>>, EntryKind)>)
    requires
        prefix.len() > 0,
        is_rooted_walk(entries),
        zip_plan(prefix, entries) is Some,
    ensures
        forall|j: int| 0 <= j < zip_plan(prefix, entries)->Some_0.len()
            ==> (exists|k: int| 1 <= k <= prefix.len()
                && #[trigger] zip_plan(prefix, entries)->Some_0[j] == ArchivedEntry::Directory(
                    dir_entry_name(prefix.subrange(0, k)),
                ))
                || (join_path(prefix) + seq!['/']).is_prefix_of(
                    entry_path(zip_plan(prefix, entries)->Some_0[j]),
                ),
{
    let w = walk_plan(prefix, entries)->Some_0;
    let plan = zip_plan(prefix, entries)->Some_0;
    let pre = prefix_entries(prefix);
    lemma_walk_plan_entries(prefix, entries);
    assert forall|j: int| 0 <= j < plan.len() implies (exists|k: int| 1 <= k <= prefix.len()
        && #[trigger] plan[j] == ArchivedEntry::Directory(dir_entry_name(prefix.subrange(0, k))))
        || (join_path(prefix) + seq!['/']).is_prefix_of(entry_path(plan[j])) by {
        if j < pre.len() {
            assert(plan[j] == pre[j]);
            let k = prefix.len() - j;
            assert(plan[j] == ArchivedEntry::Directory(dir_entry_name(prefix.subrange(0, k))));
        } else {
            assert(plan[j] == w[j - pre.len()]);
            let i = choose|i: int| 0 <= i < entries.len()
                && zip_entry_for(prefix, #[trigger] entries[i]) == Some(Some(w[j - pre.len()]));
            let rel = entries[i].0;
            assert(rel.len() > 0);
            lemma_join_append(prefix, rel);
            let head = join_path(prefix) + seq!['/'];
            assert(join_path(prefix + rel) =~= head + join_path(rel));
            assert(head.is_prefix_of(join_path(prefix + rel))) by {
                assert((head + join_path(rel)).subrange(0, head.len() as int) =~= head);
            }
            if entries[i].1 == EntryKind::Directory {
                assert(dir_entry_name(prefix + rel).subrange(0, head.len() as int)
                    =~= join_path(prefix + rel).subrange(0, head.len() as int));
            }
        }
    }
}

/// Every regular file of the tree has a file entry at its relative path
/// joined under the prefix, and every file entry is one of them: with no
/// prefix, file entries sit exactly at the files' relative paths.
pub proof fn lemma_files_keep_their_paths(prefix: Seq<Seq<char>>, entries: Seq<(Seq<Seq<char>>, EntryKind)>)
    requires
        zip_plan(prefix, entries) is Some,
    ensures
        forall|i: int| 0 <= i < entries.len() && (#[trigger] entries[i]).1 == EntryKind::File
            ==> zip_plan(prefix, entries)->Some_0.contains(ArchivedEntry::File(join_path(prefix + entries[i].0))),
        forall|n: Seq<char>| #[trigger] zip_plan(prefix, entries)->Some_0.contains(ArchivedEntry::File(n))
            ==> exists|i: int| 0 <= i < entries.len() && (#[trigger] entries[i]).1 == EntryKind::File
                && n == join_path(prefix + entries[i].0),
        prefix.len() == 0 ==> forall|i: int| 0 <= i < entries.len() ==> join_path(prefix + (#[trigger] entries[i]).0) == join_path(entries[i].0),
{
    let w = walk_plan(prefix, entries)->Some_0;
    let plan = zip_plan(prefix, entries)->Some_0;
    let pre = prefix_entries(prefix);
    lemma_walk_plan_entries(prefix, entries);
    assert forall|i: int| 0 <= i < entries.len() && (#[trigger] entries[i]).1 == EntryKind::File
        implies plan.contains(ArchivedEntry::File(join_path(prefix + entries[i].0))) by {
        assert(zip_entry_for(prefix, entries[i]) == Some(Some(ArchivedEntry::File(join_path(prefix + entries[i].0)))));
        let k = choose|k: int| 0 <= k < w.len() && w[k] == ArchivedEntry::File(join_path(prefix + entries[i].0));
        assert(plan[pre.len() + k] == w[k]);
    }
    assert forall|n: Seq<char>| #[trigger] plan.contains(ArchivedEntry::File(n))
        implies exists|i: int| 0 <= i < entries.len() && (#[trigger] entries[i]).1 == EntryKind::File
            && n == join_path(prefix + entries[i].0) by {
        let j = choose|j: int| 0 <= j < plan.len() && plan[j] == ArchivedEntry::File(n);
        if j < pre.len() {
            assert(plan[j] == pre[j]);
        } else {
            assert(plan[j] == w[j - pre.len()]);
            let i = choose|i: int| 0 <= i < entries.len()
                && zip_entry_for(prefix, #[trigger] entries[i]) == Some(Some(w[j - pre.len()]));
            assert(entries[i].1 == EntryKind::File);
        }
    }
    if prefix.len() == 0 {
        assert forall|i: int| 0 <= i < entries.len() implies join_path(prefix + (#[trigger] entries[i]).0) == join_path(entries[i].0) by {
            assert(prefix + entries[i].0 =~= entries[i].0);
        }
    }
}

/// Every directory below the walk root, empty or not, has a directory
/// entry; the walk root itself has none beyond those of the prefix; and
/// every directory entry is either one of the prefix's ancestors or a
/// walked directory at its relative path joined under the prefix (with no
/// prefix: exactly at its relative path).
pub proof fn lemma_directories_kept(prefix: Seq<Seq<char>>, entries: Seq<(Seq<Seq<char>>, EntryKind)>)
    requires
        zip_plan(prefix, entries) is Some,
    ensures
        forall|n: Seq<char>| #[trigger] zip_plan(prefix, entries)->Some_0.contains(ArchivedEntry::Directory(n))
            ==> (exists|k: int| 1 <= k <= prefix.len() && n == dir_entry_name(#[trigger] prefix.subrange(0, k)))
                || exists|i: int| 0 <= i < entries.len() && (#[trigger] entries[i]).1 == EntryKind::Directory
                    && entries[i].0.len() > 0 && n == dir_entry_name(prefix + entries[i].0),
        forall|i: int| 0 <= i < entries.len() && (#[trigger] entries[i]).1 == EntryKind::Directory
            && entries[i].0.len() > 0
            ==> zip_plan(prefix, entries)->Some_0.contains(ArchivedEntry::Directory(dir_entry_name(prefix + entries[i].0))),
        forall|i: int| 0 <= i < entries.len() && (#[trigger] entries[i]).1 == EntryKind::Directory
            && entries[i].0.len() == 0 ==> zip_entry_for(prefix, entries[i]) == Some(None::<ArchivedEntry>),
{
    let w = walk_plan(prefix, entries)->Some_0;
    let plan = zip_plan(prefix, entries)->Some_0;
    let pre = prefix_entries(prefix);
    lemma_walk_plan_entries(prefix, entries);
    assert forall|i: int| 0 <= i < entries.len() && (#[trigger] entries[i]).1 == EntryKind::Directory
        && entries[i].0.len() > 0
        implies plan.contains(ArchivedEntry::Directory(dir_entry_name(prefix + entries[i].0))) by {
        let x = ArchivedEntry::Directory(dir_entry_name(prefix + entries[i].0));
        assert(zip_entry_for(prefix, entries[i]) == Some(Some(x)));
        let k = choose|k: int| 0 <= k < w.len() && w[k] == x;
        assert(plan[pre.len() + k] == w[k]);
    }
    assert forall|n: Seq<char>| #[trigger] plan.contains(ArchivedEntry::Directory(n))
        implies (exists|k: int| 1 <= k <= prefix.len() && n == dir_entry_name(#[trigger] prefix.subrange(0, k)))
            || exists|i: int| 0 <= i < entries.len() && (#[trigger] entries[i]).1 == EntryKind::Directory
                && entries[i].0.len() > 0 && n == dir_entry_name(prefix + entries[i].0) by {
        let j = choose|j: int| 0 <= j < plan.len() && plan[j] == ArchivedEntry::Directory(n);
        if j < pre.len() {
            assert(plan[j] == pre[j]);
            let k = prefix.len() - j;
            assert(n == dir_entry_name(prefix.subrange(0, k)));
        } else {
            assert(plan[j] == w[j - pre.len()]);
            let i = choose|i: int| 0 <= i < entries.len()
                && zip_entry_for(prefix, #[trigger] entries[i]) == Some(Some(w[j - pre.len()]));
            assert(entries[i].1 == EntryKind::Directory);
        }
    }
}

/// The walk root, the source directory itself, never becomes an entry of
/// its own: no entry of a zip archive has an empty name, and no directory
/// entry is named `/`.
pub proof fn lemma_no_root_entry(with_root: Option<Seq<char>>, entries: Seq<(Seq<Seq<char>>, EntryKind)>)
    requires
        is_walk(entries),
        zip_plan(prefix_components(with_root), entries) is Some,
    ensures
        forall|j: int| 0 <= j < zip_plan(prefix_components(with_root), entries)->Some_0.len()
            ==> entry_path(#[trigger] zip_plan(prefix_components(with_root), entries)->Some_0[j]).len() > 0
                && (zip_plan(prefix_components(with_root), entries)->Some_0[j] is Directory
                ==> entry_path(zip_plan(prefix_components(with_root), entries)->Some_0[j]).len() > 1),
{
    let prefix = prefix_components(with_root);
    let w = walk_plan(prefix, entries)->Some_0;
    let plan = zip_plan(prefix, entries)->Some_0;
    let pre = prefix_entries(prefix);
    lemma_walk_plan_entries(prefix, entries);
    if let Some(r) = with_root {
        lemma_components_nonblank(r);
    }
    assert forall|i: int| 0 <= i < prefix.len() implies (#[trigger] prefix[i]).len() > 0 by {
        if let Some(r) = with_root {
            assert(!is_blank_segment(components(r)[i]));
        }
    }
    assert forall|j: int| 0 <= j < plan.len() implies entry_path(#[trigger] plan[j]).len() > 0
        && (plan[j] is Directory ==> entry_path(plan[j]).len() > 1) by {
        let parts = if j < pre.len() {
            prefix.subrange(0, prefix.len() - j)
        } else {
            let i = choose|i: int| 0 <= i < entries.len()
                && zip_entry_for(prefix, #[trigger] entries[i]) == Some(Some(w[j - pre.len()]));
            assert(entries[i].0.len() > 0);
            assert forall|m: int| 0 <= m < (prefix + entries[i].0).len() implies (#[trigger] (prefix
                + entries[i].0)[m]).len() > 0 by {
                if m >= prefix.len() {
                    assert((prefix + entries[i].0)[m] == entries[i].0[m - prefix.len()]);
                }
            }
            prefix + entries[i].0
        };
        if j < pre.len() {
            assert(plan[j] == pre[j]);
            assert forall|m: int| 0 <= m < parts.len() implies (#[trigger] parts[m]).len() > 0 by {
                assert(parts[m] == prefix[m]);
            }
        } else {
            assert(plan[j] == w[j - pre.len()]);
        }
        lemma_join_nonempty(parts);
        if plan[j] is Directory {
            assert(entry_path(plan[j]) == dir_entry_name(parts));
            assert(dir_entry_name(parts).len() == join_path(parts).len() + 1);
        } else {
            assert(entry_path(plan[j]) == join_path(parts));
        }
    }
}

/// Without a root prefix, a tar archive holds the tree at its root: the
/// in-archive path handed to the container is empty.
pub proof fn lemma_no_prefix_tar_root()
    ensures
        join_path(prefix_components(None)) == Seq::<char>::empty(),
{
}

/// Both pipelines write the entries before finishing the container, and
/// the tar pipeline finishes the container before the compressor around
/// it; every pipeline starts by creating the destination.
pub proof fn lemma_inner_finished_before_outer(format: ArchiveFormat)
    ensures
        stage_plan(format)[0] == ArchiveStage::CreateDestination,
        exists|w: int, c: int| 0 <= w < c < stage_plan(format).len()
            && stage_plan(format)[w] == ArchiveStage::WriteEntries
            && stage_plan(format)[c] == ArchiveStage::FinishContainer,
        format is Tar ==> stage_plan(format).last() == ArchiveStage::FinishEncoder
            && stage_plan(format)[3] == ArchiveStage::FinishContainer,
        format is Zip ==> stage_plan(format).last() == ArchiveStage::FinishContainer,
{
    match format {
        ArchiveFormat::Tar(_) => {
            assert(stage_plan(format)[2] == ArchiveStage::WriteEntries);
            assert(stage_plan(format)[3] == ArchiveStage::FinishContainer);
        },
        ArchiveFormat::Zip => {
            assert(stage_plan(format)[1] == ArchiveStage::WriteEntries);
            assert(stage_plan(format)[2] == ArchiveStage::FinishContainer);
        },
    }
}

/// Every pipeline begins by creating the destination, whatever its
/// format: a destination that cannot be created (its parent directory is
/// missing, say) is reported as a destination-create failure, never as a
/// failure of a later stage.
pub proof fn lemma_destination_failure(
    job: ArchiveJob,
    e: AxoassetError,
    details: std::io::Error,
)
    requires
        job.completed() == 0,
        is_stage_failure(e, job.pending()->Some_0, job.src_path@, job.dest_path@, details),
    ensures
        job.pending() == Some(ArchiveStage::CreateDestination),
        e is LocalAssetWriteNewFailed,
        e->LocalAssetWriteNewFailed_dest_path@ == job.dest_path@,
        e->LocalAssetWriteNewFailed_details == details,
{
}

} // verus!
