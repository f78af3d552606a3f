//! Source files kept for diagnostics: a name, an origin and the text, with
//! positions in the text found from line and column numbers.

use std::sync::Arc;

use vstd::prelude::*;
use vstd::utf8::encode_utf8;

use crate::error::AxoassetError;
use crate::local::{path_file_name, LocalAsset};

verus! {

/// The position of the first line feed at or after `i` in `b`; `b.len()`
/// where there is none.
pub open spec fn next_newline(b: Seq<u8>, i: int) -> int
    decreases b.len() - i,
{
    if i >= b.len() {
        b.len() as int
    } else if b[i] == 10 {
        i
    } else {
        next_newline(b, i + 1)
    }
}

/// Where line `k` (counted from 0) of `b` starts, with lines as
/// `str::lines` yields them: a final line feed ends the last line rather
/// than starting an empty one. `None` where `b` has no such line.
pub open spec fn line_start(b: Seq<u8>, k: nat) -> Option<int>
    decreases k,
{
    if k == 0 {
        if b.len() > 0 {
            Some(0)
        } else {
            None
        }
    } else {
        match line_start(b, (k - 1) as nat) {
            Some(s) => if next_newline(b, s) + 1 < b.len() {
                Some(next_newline(b, s) + 1)
            } else {
                None
            },
            None => None,
        }
    }
}

/// The length in bytes of the line starting at `s`, without its line
/// feed and without a carriage return just before that line feed.
pub open spec fn line_len(b: Seq<u8>, s: int) -> int {
    let e = next_newline(b, s);
    if e < b.len() && e > s && b[e - 1] == 13 {
        e - 1 - s
    } else {
        e - s
    }
}

/// The byte offset of column `col` of line `line`, both counted from 1:
/// `None` where either is 0, the line does not exist, the column lies past
/// its end, or the one-byte span there would not end before the last byte.
pub open spec fn line_col_start(b: Seq<u8>, line: int, col: int) -> Option<int> {
    if line < 1 || col < 1 {
        None
    } else {
        match line_start(b, (line - 1) as nat) {
            Some(s) => if col > line_len(b, s) || s + col >= b.len() {
                None
            } else {
                Some(s + col - 1)
            },
            None => None,
        }
    }
}

proof fn lemma_next_newline_bounds(b: Seq<u8>, i: int)
    requires
        0 <= i,
    ensures
        next_newline(b, i) >= i || i > b.len(),
        next_newline(b, i) <= b.len(),
        next_newline(b, i) < b.len() ==> b[next_newline(b, i)] == 10,
    decreases b.len() - i,
{
    if i < b.len() && b[i] != 10 {
        lemma_next_newline_bounds(b, i + 1);
    }
}

proof fn lemma_no_later_lines(b: Seq<u8>, k: nat, m: nat)
    requires
        k <= m,
        line_start(b, k) is None,
    ensures
        line_start(b, m) is None,
    decreases m - k,
{
    if k < m {
        lemma_no_later_lines(b, k, (m - 1) as nat);
    }
}

fn find_newline(b: &[u8], s: usize) -> (e: usize)
    requires
        s <= b@.len(),
    ensures
        e == next_newline(b@, s as int),
{
    let mut j = s;
    while j < b.len() && b[j] != 10
        invariant
            s <= j <= b@.len(),
            next_newline(b@, s as int) == next_newline(b@, j as int),
        decreases b@.len() - j,
    {
        j = j + 1;
    }
    j
}

/// Finds the byte offset of a 1-based line and column of `text`.
pub fn line_col_offset(text: &str, line: usize, col: usize) -> (r: Option<usize>)
    ensures
        r == match line_col_start(encode_utf8(text@), line as int, col as int) {
            Some(x) => Some(x as usize),
            None => None::<usize>,
        },
{
    let b = text.as_bytes();
    let ghost bs = b@;
    assert(bs == encode_utf8(text@));
    let n = b.len();
    if line == 0 || col == 0 || n == 0 {
        proof {
            if line > 0 && col > 0 {
                lemma_no_later_lines(bs, 0, (line - 1) as nat);
            }
        }
        return None;
    }
    let mut s: usize = 0;
    let mut k: usize = 0;
    while k < line - 1
        invariant
            bs == b@,
            bs == encode_utf8(text@),
            n == bs.len(),
            1 <= line,
            k <= line - 1,
            line_start(bs, k as nat) == Some(s as int),
            s < n,
        decreases line - 1 - k,
    {
        let e = find_newline(b, s);
        proof {
            lemma_next_newline_bounds(bs, s as int);
        }
        if e >= n - 1 {
            proof {
                assert(line_start(bs, (k + 1) as nat) is None);
                lemma_no_later_lines(bs, (k + 1) as nat, (line - 1) as nat);
                assert(line_col_start(bs, line as int, col as int) is None);
            }
            return None;
        }
        s = e + 1;
        k = k + 1;
    }
    let e = find_newline(b, s);
    proof {
        lemma_next_newline_bounds(bs, s as int);
    }
    let len = if e < n && e > s && b[e - 1] == 13 {
        e - 1 - s
    } else {
        e - s
    };
    assert(len == line_len(bs, s as int));
    if col > len {
        return None;
    }
    let at = s + col;
    if at >= n {
        return None;
    }
    Some(at - 1)
}

#[derive(Debug, PartialEq, Eq)]
struct SourceFileInner {
    filename: String,
    origin_path: String,
    contents: String,
}

/// A file's contents with its display name, for reporting diagnostics
/// that point into the file; cheap to clone.
#[derive(Debug, PartialEq, Eq)]
pub struct SourceFile {
    inner: Arc<SourceFileInner>,
}

impl Clone for SourceFile {
    /// Another handle on the same file.
    fn clone(&self) -> (r: SourceFile)
        ensures
            r@ == self@,
    {
        SourceFile { inner: Arc::clone(&self.inner) }
    }
}

/// What a source file holds: its file name, where it came from, and its
/// text.
pub struct SourceFileView {
    pub filename: Seq<char>,
    pub origin_path: Seq<char>,
    pub contents: Seq<char>,
}

impl View for SourceFile {
    type V = SourceFileView;

    closed spec fn view(&self) -> SourceFileView {
        SourceFileView {
            filename: self.inner.filename@,
            origin_path: self.inner.origin_path@,
            contents: self.inner.contents@,
        }
    }
}

impl SourceFile {
    /// An empty source file with the given origin.
    pub fn new_empty(origin_path: &str) -> (r: Result<SourceFile, AxoassetError>)
        ensures
            match r {
                Ok(f) => path_file_name(origin_path@) == Some(f@.filename) && f@.origin_path == origin_path@
                    && f@.contents.len() == 0,
                Err(e) => path_file_name(origin_path@) is None && e is LocalAssetMissingFilename
                    && e->LocalAssetMissingFilename_origin_path@ == origin_path@,
            },
    {
        Self::new(origin_path, String::new())
    }

    /// A source file with the given origin and contents; its name is the
    /// origin's file name, and a path without one is an error.
    pub fn new(origin_path: &str, contents: String) -> (r: Result<SourceFile, AxoassetError>)
        ensures
            match r {
                Ok(f) => path_file_name(origin_path@) == Some(f@.filename) && f@.origin_path == origin_path@
                    && f@.contents == contents@,
                Err(e) => path_file_name(origin_path@) is None && e is LocalAssetMissingFilename
                    && e->LocalAssetMissingFilename_origin_path@ == origin_path@,
            },
    {
        match LocalAsset::filename(origin_path) {
            Ok(filename) => Ok(SourceFile {
                inner: Arc::new(SourceFileInner { filename, origin_path: origin_path.to_string(), contents }),
            }),
            Err(e) => Err(e),
        }
    }

    /// A source file fetched from a remote origin, under the file name that
    /// the download was given.
    pub fn new_remote(filename: String, origin_path: &str, contents: String) -> (r: SourceFile)
        ensures
            r@.filename == filename@,
            r@.origin_path == origin_path@,
            r@.contents == contents@,
    {
        SourceFile {
            inner: Arc::new(SourceFileInner { filename, origin_path: origin_path.to_string(), contents }),
        }
    }

    /// The file name of the source file.
    pub fn filename(&self) -> (r: &str)
        ensures
            r@ == self@.filename,
    {
        self.inner.filename.as_str()
    }

    /// Where the source file came from.
    pub fn origin_path(&self) -> (r: &str)
        ensures
            r@ == self@.origin_path,
    {
        self.inner.origin_path.as_str()
    }

    /// The text of the source file.
    pub fn contents(&self) -> (r: &str)
        ensures
            r@ == self@.contents,
    {
        self.inner.contents.as_str()
    }

    /// The byte offset of a 1-based line and column of the contents, where
    /// they name a byte that has at least one more byte after it.
    pub fn line_col_offset(&self, line: usize, col: usize) -> (r: Option<usize>)
        ensures
            r == match line_col_start(encode_utf8(self@.contents), line as int, col as int) {
                Some(x) => Some(x as usize),
                None => None::<usize>,
            },
    {
        line_col_offset(self.contents(), line, col)
    }

    /// The one-byte span at a 1-based line and column of the contents, as
    /// `line_col_offset` finds it.
    pub fn span_for_line_col(&self, line: usize, col: usize) -> (r: Option<miette::SourceSpan>)
        ensures
            r is Some <==> line_col_start(encode_utf8(self@.contents), line as int, col as int) is Some,
            line == 0 || col == 0 ==> r is None,
    {
        match self.line_col_offset(line, col) {
            Some(at) => Some(byte_span(at, 1)),
            None => None,
        }
    }
}

/// Relies on `miette::SourceSpan`'s `From<(usize, usize)>`: the span of
/// `len` bytes starting at `offset`.
#[verifier::external_body]
fn byte_span(offset: usize, len: usize) -> miette::SourceSpan {
    miette::SourceSpan::from((offset, len))
}

} // verus!
