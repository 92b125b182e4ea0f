//! The source of an arXiv submission: its main LaTeX file, or its files.

use crate::bytes;
use crate::paths;
use crate::refs::ArxivId;
use crate::refs::Ref;
use crate::refs::RefModel;
use crate::safekey;
use crate::source::FetchError;
use crate::text;
use crate::urls;
use crate::urls::WebUrl;
use std::io::Read;
use vstd::prelude::*;

verus! {

/// Days for which a cached source is served.
pub const TEX_SRC_CACHE_TTL_DAYS: i64 = 7;

/// Largest unpacked submission, in bytes.
pub const SRC_MAX_DECOMPRESSED_BYTES: u64 = 500_000_000;

// ---------------------------------------------------------------------------
// Archives
// ---------------------------------------------------------------------------

/// An entry of a tar archive.
#[derive(Debug, Clone, PartialEq, Eq)]
pub enum TarEntry {
    /// The entry cannot be read.
    Broken,
    /// An entry whose head was read.
    Entry {
        /// It is a regular file.
        is_file: bool,
        /// Its path, with what is not UTF-8 in it replaced.
        path: String,
        /// Its content, where that was asked for and can be read.
        data: Option<Vec<u8>>,
    },
}

/// What an entry of a tar archive holds.
pub enum TarModel {
    Broken,
    Entry { is_file: bool, path: Seq<char>, data: Option<Seq<u8>> },
}

impl View for TarEntry {
    type V = TarModel;

    open spec fn view(&self) -> TarModel {
        match *self {
            TarEntry::Broken => TarModel::Broken,
            TarEntry::Entry { is_file, path, data } => TarModel::Entry {
                is_file,
                path: path@,
                data: match data {
                    Some(d) => Some(d@),
                    None => None,
                },
            },
        }
    }
}

/// What a list of entries holds.
pub open spec fn tar_views(v: Seq<TarEntry>) -> Seq<TarModel> {
    Seq::new(v.len(), |i: int| v[i]@)
}

/// At most `limit` bytes of what a gzip stream unpacks to, or what is wrong
/// with the stream.
pub uninterp spec fn gunzipped(data: Seq<u8>, limit: u64) -> Result<Seq<u8>, Seq<char>>;

/// The head of each entry of a tar archive, in order: whether it is a regular
/// file and the bytes of its path, or nothing where it cannot be read. Else what
/// is wrong with the archive.
pub uninterp spec fn tar_heads(data: Seq<u8>) -> Result<
    Seq<Option<(bool, Seq<u8>)>>,
    Seq<char>,
>;

/// The content of the entry at a position of a tar archive, where it can be
/// read.
pub uninterp spec fn tar_content(data: Seq<u8>, position: int) -> Option<Seq<u8>>;

/// Unpacks with `flate2::read::GzDecoder`, reading no more than `limit` bytes.
/// The result depends on the bytes and the limit alone.
#[verifier::external_body]
fn gunzip(data: &[u8], limit: u64) -> (r: Result<Vec<u8>, String>)
    ensures
        match r {
            Ok(v) => gunzipped(data@, limit) == Ok::<Seq<u8>, Seq<char>>(v@) && v@.len() <= limit,
            Err(e) => gunzipped(data@, limit) == Err::<Seq<u8>, Seq<char>>(e@),
        },
{
    let mut out: Vec<u8> = Vec::new();
    match flate2::read::GzDecoder::new(data).take(limit).read_to_end(&mut out) {
        Ok(_) => Ok(out),
        Err(e) => Err(e.to_string()),
    }
}

/// The heads that were read.
pub open spec fn head_views(v: Seq<Option<(bool, Vec<u8>)>>) -> Seq<Option<(bool, Seq<u8>)>> {
    Seq::new(
        v.len(),
        |i: int|
            match v[i] {
                Some(h) => Some((h.0, h.1@)),
                None => None,
            },
    )
}

/// Lists an archive with `tar::Archive::entries`, each entry with its kind and
/// the bytes that `tar::Entry::path_bytes` gives. No content is read. The heads
/// depend on the bytes alone.
#[verifier::external_body]
fn list_tar(data: &[u8]) -> (r: Result<Vec<Option<(bool, Vec<u8>)>>, String>)
    ensures
        match r {
            Ok(v) => tar_heads(data@) == Ok::<Seq<Option<(bool, Seq<u8>)>>, Seq<char>>(
                head_views(v@),
            ),
            Err(e) => tar_heads(data@) == Err::<Seq<Option<(bool, Seq<u8>)>>, Seq<char>>(e@),
        },
{
    let mut archive = tar::Archive::new(data);
    let entries = archive.entries().map_err(|e| e.to_string())?;
    Ok(entries.map(|entry| match entry {
        Err(_) => None,
        Ok(e) => Some((e.header().entry_type().is_file(), e.path_bytes().into_owned())),
    }).collect())
}

/// An entry of which the head was read, or not, and no content.
pub open spec fn entry_listed(head: Option<(bool, Seq<u8>)>) -> TarModel {
    match head {
        Some((is_file, path)) => TarModel::Entry {
            is_file,
            path: bytes::utf8_lossy(path),
            data: None,
        },
        None => TarModel::Broken,
    }
}

/// The entries of an archive, by their heads.
pub open spec fn entries_listed(heads: Seq<Option<(bool, Seq<u8>)>>) -> Seq<TarModel> {
    Seq::new(heads.len(), |i: int| entry_listed(heads[i]))
}

/// The entries of a tar archive, in order and without their content, or what is
/// wrong with the archive.
pub open spec fn tar_listing(data: Seq<u8>) -> Result<Seq<TarModel>, Seq<char>> {
    match tar_heads(data) {
        Ok(heads) => Ok(entries_listed(heads)),
        Err(e) => Err(e),
    }
}

/// Decodes the paths of entries.
pub fn listing_of_heads(heads: &Vec<Option<(bool, Vec<u8>)>>) -> (r: Vec<TarEntry>)
    ensures
        tar_views(r@) == entries_listed(head_views(heads@)),
{
    let mut out: Vec<TarEntry> = Vec::new();
    let mut i: usize = 0;
    while i < heads.len()
        invariant
            i <= heads.len(),
            out@.len() == i,
            forall|j: int|
                0 <= j < i ==> (#[trigger] out@[j])@ == entry_listed(head_views(heads@)[j]),
        decreases heads.len() - i,
    {
        let entry = match &heads[i] {
            Some((is_file, path)) => TarEntry::Entry {
                is_file: *is_file,
                path: bytes::lossy_text(path.as_slice()),
                data: None,
            },
            None => TarEntry::Broken,
        };
        out.push(entry);
        i += 1;
    }
    assert(tar_views(out@) =~= entries_listed(head_views(heads@)));
    out
}

/// The position that the `i`-th of some gaps leads to, where each gap is the
/// number of entries that are passed over before the next.
pub open spec fn entry_behind(gaps: Seq<usize>, i: int) -> int
    decreases i,
{
    if i <= 0 {
        gaps[0] as int
    } else {
        entry_behind(gaps, i - 1) + 1 + gaps[i]
    }
}

/// What was read of an entry.
pub open spec fn content_view(c: Option<Vec<u8>>) -> Option<Seq<u8>> {
    match c {
        Some(d) => Some(d@),
        None => None,
    }
}

/// Reads entries of an archive through `tar::Archive::entries` and
/// `tar::Entry`'s `Read`, in one pass, and passes over the others. What an
/// entry holds depends on the bytes and its position alone, not on what was
/// read before it.
#[verifier::external_body]
fn read_tar(data: &[u8], gaps: &Vec<usize>) -> (r: Vec<Option<Vec<u8>>>)
    ensures
        r@.len() == gaps@.len(),
        forall|i: int|
            0 <= i < r@.len() ==> content_view(#[trigger] r@[i]) == tar_content(
                data@,
                entry_behind(gaps@, i),
            ),
{
    let mut archive = tar::Archive::new(data);
    let mut entries = archive.entries().into_iter().flatten();
    gaps.iter().map(|gap| entries.nth(*gap).and_then(|e| e.ok()).and_then(|mut e| {
        let mut buf = Vec::new();
        e.read_to_end(&mut buf).ok().map(|_| buf)
    })).collect()
}

/// An entry with the given content.
pub open spec fn with_data(e: TarModel, d: Option<Seq<u8>>) -> TarModel {
    match e {
        TarModel::Broken => TarModel::Broken,
        TarModel::Entry { is_file, path, .. } => TarModel::Entry { is_file, path, data: d },
    }
}

/// The entries of an archive, with the content of those that are wanted.
pub open spec fn tar_read(
    data: Seq<u8>,
    listing: Seq<TarModel>,
    wanted: spec_fn(TarModel) -> bool,
) -> Seq<TarModel> {
    Seq::new(
        listing.len(),
        |i: int|
            with_data(
                listing[i],
                if wanted(listing[i]) {
                    tar_content(data, i)
                } else {
                    None
                },
            ),
    )
}

/// Number of marks that are set.
pub open spec fn marks_set(v: Seq<bool>) -> nat
    decreases v.len(),
{
    if v.len() == 0 {
        0
    } else {
        marks_set(v.drop_last()) + if v.last() {
            1nat
        } else {
            0nat
        }
    }
}

proof fn lemma_entry_behind(gaps: Seq<usize>, gap: usize, i: int)
    requires
        0 <= i < gaps.len(),
    ensures
        entry_behind(gaps.push(gap), i) == entry_behind(gaps, i),
    decreases i,
{
    if i > 0 {
        lemma_entry_behind(gaps, gap, i - 1);
    }
}

proof fn lemma_marks_set(v: Seq<bool>, k: int)
    requires
        0 <= k < v.len(),
        v[k],
    ensures
        marks_set(v.take(k)) < marks_set(v),
    decreases v.len(),
{
    if k == v.len() - 1 {
        assert(v.take(k) =~= v.drop_last());
    } else {
        lemma_marks_set(v.drop_last(), k);
        assert(v.drop_last().take(k) =~= v.take(k));
    }
}

/// How many entries are passed over before each that is marked.
fn gaps_of(wanted: &Vec<bool>) -> (r: Vec<usize>)
    ensures
        r@.len() == marks_set(wanted@),
        forall|k: int|
            0 <= k < wanted@.len() && #[trigger] wanted@[k] ==> entry_behind(
                r@,
                marks_set(wanted@.take(k)) as int,
            ) == k,
{
    let mut gaps: Vec<usize> = Vec::new();
    let mut passed: usize = 0;
    let mut i: usize = 0;
    while i < wanted.len()
        invariant
            i <= wanted.len(),
            passed <= i,
            gaps@.len() == marks_set(wanted@.take(i as int)),
            gaps@.len() == 0 ==> passed == i,
            gaps@.len() > 0 ==> entry_behind(gaps@, gaps@.len() - 1) + 1 + passed == i,
            forall|k: int|
                0 <= k < i && #[trigger] wanted@[k] ==> entry_behind(
                    gaps@,
                    marks_set(wanted@.take(k)) as int,
                ) == k,
        decreases wanted.len() - i,
    {
        let ghost before = gaps@;
        assert(wanted@.take(i + 1).drop_last() =~= wanted@.take(i as int));
        if wanted[i] {
            gaps.push(passed);
            proof {
                assert forall|k: int| 0 <= k < i + 1 && #[trigger] wanted@[k] implies entry_behind(
                    gaps@,
                    marks_set(wanted@.take(k)) as int,
                ) == k by {
                    if k < i {
                        lemma_marks_set(wanted@.take(i as int), k);
                        assert(wanted@.take(i as int).take(k) =~= wanted@.take(k));
                        lemma_entry_behind(before, passed, marks_set(wanted@.take(k)) as int);
                    } else if before.len() > 0 {
                        lemma_entry_behind(before, passed, before.len() - 1);
                    }
                }
                assert(wanted@[i as int]);
            }
            passed = 0;
        } else {
            passed = passed + 1;
        }
        i += 1;
    }
    assert(wanted@.take(i as int) =~= wanted@);
    gaps
}

/// The entries of an archive, with the content of those that are marked.
fn read_marked(data: &[u8], listing: &Vec<TarEntry>, wanted: &Vec<bool>) -> (r: Vec<TarEntry>)
    requires
        wanted@.len() == listing@.len(),
    ensures
        r@.len() == listing@.len(),
        forall|i: int|
            0 <= i < r@.len() ==> (#[trigger] r@[i])@ == if wanted@[i] {
                with_data(listing@[i]@, tar_content(data@, i))
            } else {
                with_data(listing@[i]@, None)
            },
{
    let gaps = gaps_of(wanted);
    let mut contents = read_tar(data, &gaps);
    let mut out: Vec<TarEntry> = Vec::new();
    let mut next: usize = 0;
    let mut i: usize = 0;
    while i < listing.len()
        invariant
            i <= listing.len(),
            wanted@.len() == listing@.len(),
            next == marks_set(wanted@.take(i as int)),
            next <= i,
            contents@.len() == marks_set(wanted@),
            forall|k: int|
                0 <= k < wanted@.len() && #[trigger] wanted@[k] ==> entry_behind(
                    gaps@,
                    marks_set(wanted@.take(k)) as int,
                ) == k,
            forall|k: int|
                next <= k < contents@.len() ==> content_view(#[trigger] contents@[k])
                    == tar_content(data@, entry_behind(gaps@, k)),
            out@.len() == i,
            forall|j: int|
                0 <= j < i ==> (#[trigger] out@[j])@ == if wanted@[j] {
                    with_data(listing@[j]@, tar_content(data@, j))
                } else {
                    with_data(listing@[j]@, None)
                },
        decreases listing.len() - i,
    {
        assert(wanted@.take(i + 1).drop_last() =~= wanted@.take(i as int));
        let mut content: Option<Vec<u8>> = None;
        if wanted[i] {
            proof {
                lemma_marks_set(wanted@, i as int);
                assert(entry_behind(gaps@, next as int) == i);
            }
            std::mem::swap(&mut content, &mut contents[next]);
            next = next + 1;
        }
        let entry = match &listing[i] {
            TarEntry::Broken => TarEntry::Broken,
            TarEntry::Entry { is_file, path, .. } => TarEntry::Entry {
                is_file: *is_file,
                path: path.clone(),
                data: content,
            },
        };
        out.push(entry);
        i += 1;
    }
    out
}

/// The bytes start like a PDF.
pub open spec fn starts_pdf(data: Seq<u8>) -> bool {
    seq![0x25u8, 0x50u8, 0x44u8, 0x46u8, 0x2Du8].is_prefix_of(data)
}

/// The bytes start like a gzip stream.
pub open spec fn starts_gzip(data: Seq<u8>) -> bool {
    data.len() >= 2 && data[0] == 0x1F && data[1] == 0x8B
}

/// The bytes hold the mark of a tar archive at its place, and go on behind it.
pub open spec fn is_tar(data: Seq<u8>) -> bool {
    data.len() > 262 && data.subrange(257, 262) == seq![0x75u8, 0x73u8, 0x74u8, 0x61u8, 0x72u8]
}

fn looks_like_pdf(data: &[u8]) -> (r: bool)
    ensures
        r == starts_pdf(data@),
{
    let r = data.len() >= 5 && data[0] == 0x25 && data[1] == 0x50 && data[2] == 0x44 && data[3]
        == 0x46 && data[4] == 0x2D;
    proof {
        let m = seq![0x25u8, 0x50u8, 0x44u8, 0x46u8, 0x2Du8];
        if r {
            assert(data@.subrange(0, 5) =~= m);
        } else if m.is_prefix_of(data@) {
            assert(data@.subrange(0, 5)[0] == m[0]);
            assert(data@.subrange(0, 5)[1] == m[1]);
            assert(data@.subrange(0, 5)[2] == m[2]);
            assert(data@.subrange(0, 5)[3] == m[3]);
            assert(data@.subrange(0, 5)[4] == m[4]);
        }
    }
    r
}

fn looks_like_gzip(data: &[u8]) -> (r: bool)
    ensures
        r == starts_gzip(data@),
{
    data.len() >= 2 && data[0] == 0x1F && data[1] == 0x8B
}

fn looks_like_tar(data: &[u8]) -> (r: bool)
    ensures
        r == is_tar(data@),
{
    let r = data.len() > 262 && data[257] == 0x75 && data[258] == 0x73 && data[259] == 0x74
        && data[260] == 0x61 && data[261] == 0x72;
    proof {
        let m = seq![0x75u8, 0x73u8, 0x74u8, 0x61u8, 0x72u8];
        if r {
            assert(data@.subrange(257, 262) =~= m);
        } else if is_tar(data@) {
            let t = data@.subrange(257, 262);
            assert(t[0] == m[0] && t[1] == m[1] && t[2] == m[2] && t[3] == m[3] && t[4] == m[4]);
        }
    }
    r
}

// ---------------------------------------------------------------------------
// The main LaTeX file
// ---------------------------------------------------------------------------

/// A LaTeX text and, where it comes out of an archive, the name of its file.
#[derive(Debug, Clone, PartialEq, Eq)]
pub struct ExtractedTex {
    /// Name of the file in the archive.
    pub main_file: Option<String>,
    /// The text.
    pub content: String,
}

/// What can become of a submission.
pub enum TexOutcome {
    /// It holds no text.
    Unavailable,
    /// It cannot be understood.
    Schema(Seq<char>),
    /// The text was found.
    Tex { main_file: Option<Seq<char>>, content: Seq<char> },
}

/// A result and the outcome that it stands for.
pub open spec fn tex_result(
    r: Result<ExtractedTex, FetchError>,
    id: Seq<char>,
    outcome: TexOutcome,
) -> bool {
    match outcome {
        TexOutcome::Unavailable => r matches Err(FetchError::TextUnavailable { arxiv_id })
            && arxiv_id@ == id,
        TexOutcome::Schema(hint) => r matches Err(FetchError::SourceSchema { hint: h }) && h@
            == hint,
        TexOutcome::Tex { main_file, content } => r is Ok && text::opt_view(r->Ok_0.main_file)
            == main_file && r->Ok_0.content@ == content,
    }
}

/// A text on its own: there where it is not blank.
pub open spec fn plain_tex(content: Seq<char>) -> TexOutcome {
    if text::trim(content).len() == 0 {
        TexOutcome::Unavailable
    } else {
        TexOutcome::Tex { main_file: None, content }
    }
}

/// The entry is named like a LaTeX file.
pub open spec fn tex_named(e: TarModel) -> bool {
    e matches TarModel::Entry { path: p, .. } && ".tex"@.is_suffix_of(p)
}

/// The LaTeX file that an entry holds: its name and its text, where the text
/// is readable and not blank.
pub open spec fn tex_file(e: TarModel) -> Option<(Seq<char>, Seq<char>)> {
    match e {
        TarModel::Entry { path: p, data: Some(d), .. } => if ".tex"@.is_suffix_of(p)
            && vstd::utf8::valid_utf8(d) && text::trim(vstd::utf8::decode_utf8(d)).len() > 0 {
            Some((p, vstd::utf8::decode_utf8(d)))
        } else {
            None
        },
        _ => None,
    }
}

/// The LaTeX files of an archive, in order.
pub open spec fn tex_files(entries: Seq<TarModel>) -> Seq<(Seq<char>, Seq<char>)>
    decreases entries.len(),
{
    if entries.len() == 0 {
        Seq::empty()
    } else {
        let before = tex_files(entries.drop_last());
        match tex_file(entries.last()) {
            Some(f) => before.push(f),
            None => before,
        }
    }
}

/// Number of entries that are named like a LaTeX file.
pub open spec fn tex_count(entries: Seq<TarModel>) -> nat
    decreases entries.len(),
{
    if entries.len() == 0 {
        0
    } else {
        tex_count(entries.drop_last()) + if tex_named(entries.last()) {
            1nat
        } else {
            0nat
        }
    }
}

/// How likely a LaTeX file is the main one: a `\documentclass` weighs most,
/// then the name `main.tex`, then the size in bytes.
pub open spec fn tex_weight(f: (Seq<char>, Seq<char>)) -> int {
    (if text::contains_text(f.1, "\\documentclass"@) {
        1_000_000int
    } else {
        0
    }) + (if "main.tex"@.is_suffix_of(f.0) {
        100_000int
    } else {
        0
    }) + text::byte_len(f.1)
}

/// Position of the heaviest file; of several, the last.
pub open spec fn heaviest(files: Seq<(Seq<char>, Seq<char>)>) -> int
    decreases files.len(),
{
    if files.len() <= 1 {
        0
    } else {
        let k = heaviest(files.drop_last());
        if tex_weight(files.last()) >= tex_weight(files[k]) {
            files.len() - 1
        } else {
            k
        }
    }
}

/// What becomes of a submission that is an archive: its heaviest LaTeX file.
pub open spec fn tex_of_entries(entries: Seq<TarModel>) -> TexOutcome {
    let files = tex_files(entries);
    if files.len() > 0 {
        TexOutcome::Tex {
            main_file: Some(files[heaviest(files)].0),
            content: files[heaviest(files)].1,
        }
    } else if tex_count(entries) > 0 {
        TexOutcome::Schema(
            "tar contained "@ + text::decimal(tex_count(entries))
                + " .tex entries but all failed to read"@,
        )
    } else {
        TexOutcome::Unavailable
    }
}

/// The entries of an archive, with the content of those that are named like a
/// LaTeX file.
pub open spec fn tex_entries(data: Seq<u8>, listing: Seq<TarModel>) -> Seq<TarModel> {
    tar_read(data, listing, |e: TarModel| tex_named(e))
}

/// What becomes of an archive.
pub open spec fn tex_of_tar(data: Seq<u8>) -> TexOutcome {
    match tar_listing(data) {
        Err(e) => TexOutcome::Schema("tar read failed: "@ + e),
        Ok(listing) => tex_of_entries(tex_entries(data, listing)),
    }
}

/// What becomes of unpacked bytes, given the text that they may be.
pub open spec fn tex_of_unpacked(data: Seq<u8>, lossy: Seq<char>) -> TexOutcome {
    if is_tar(data) {
        tex_of_tar(data)
    } else {
        plain_tex(lossy)
    }
}

/// What becomes of the bytes of a submission.
pub open spec fn tex_of_body(data: Seq<u8>) -> TexOutcome {
    if starts_pdf(data) {
        TexOutcome::Unavailable
    } else if !starts_gzip(data) {
        plain_tex(bytes::utf8_lossy(data))
    } else {
        match gunzipped(data, u64::MAX) {
            Err(e) => TexOutcome::Schema("gzip decompress of arXiv src failed: "@ + e),
            Ok(d) => tex_of_unpacked(d, bytes::utf8_lossy(d)),
        }
    }
}

fn is_blank(s: &str) -> (r: bool)
    ensures
        r == (text::trim(s@).len() == 0),
{
    text::trim_of(s).as_str().is_empty()
}

fn plain_result(id: &ArxivId, content: String) -> (r: Result<ExtractedTex, FetchError>)
    ensures
        tex_result(r, id@, plain_tex(content@)),
{
    if is_blank(content.as_str()) {
        Err(FetchError::TextUnavailable { arxiv_id: id.clone() })
    } else {
        Ok(ExtractedTex { main_file: None, content })
    }
}

fn weight_of(name: &str, content: &str) -> (r: u128)
    ensures
        r == tex_weight((name@, content@)),
{
    let n = text::chars_of(name);
    let main = text::chars_of("main.tex");
    let docclass: u128 = if text::has_text(content, "\\documentclass") {
        1_000_000
    } else {
        0
    };
    let is_main: u128 = if text::ends_with(n.as_slice(), main.as_slice()) {
        100_000
    } else {
        0
    };
    docclass + is_main + text::byte_len_of(content) as u128
}

/// Picks the main LaTeX file among the entries of an archive.
pub fn main_tex_of_entries(id: &ArxivId, entries: &Vec<TarEntry>) -> (r: Result<
    ExtractedTex,
    FetchError,
>)
    ensures
        tex_result(r, id@, tex_of_entries(tar_views(entries@))),
{
    let ghost all = tar_views(entries@);
    let suffix = text::chars_of(".tex");
    let mut attempted: usize = 0;
    let mut best: Option<(String, String)> = None;
    let mut best_weight: u128 = 0;
    let mut i: usize = 0;
    while i < entries.len()
        invariant
            i <= entries.len(),
            all == tar_views(entries@),
            suffix@ == ".tex"@,
            attempted == tex_count(all.take(i as int)),
            attempted <= i,
            best is None <==> tex_files(all.take(i as int)).len() == 0,
            best matches Some(b) ==> {
                let files = tex_files(all.take(i as int));
                &&& 0 <= heaviest(files) < files.len()
                &&& (b.0@, b.1@) == files[heaviest(files)]
                &&& best_weight == tex_weight(files[heaviest(files)])
            },
        decreases entries.len() - i,
    {
        let ghost t = all.take(i + 1);
        assert(t.drop_last() =~= all.take(i as int));
        assert(t.last() == entries@[i as int]@);
        let ghost before = tex_files(all.take(i as int));
        match &entries[i] {
            TarEntry::Entry { path: p, data, .. } => {
                let name = text::chars_of(p.as_str());
                if text::ends_with(name.as_slice(), suffix.as_slice()) {
                    attempted = attempted + 1;
                    let content = match data {
                        Some(d) => bytes::exact_text(d.as_slice()),
                        None => None,
                    };
                    match content {
                        Some(c) => if !is_blank(c.as_str()) {
                            let w = weight_of(p.as_str(), c.as_str());
                            let first = match &best {
                                Some(_) => false,
                                None => true,
                            };
                            proof {
                                let files = tex_files(t);
                                assert(files == before.push((p@, c@)));
                                assert(files.drop_last() =~= before);
                            }
                            if first || w >= best_weight {
                                best = Some((p.clone(), c));
                                best_weight = w;
                            }
                        },
                        None => {},
                    }
                }
            },
            _ => {},
        }
        i += 1;
    }
    assert(all.take(i as int) =~= all);
    match best {
        Some((name, content)) => Ok(ExtractedTex { main_file: Some(name), content }),
        None => if attempted > 0 {
            Err(
                FetchError::SourceSchema {
                    hint: "tar contained ".to_string().concat(
                        text::decimal_of(attempted as u64).as_str(),
                    ).concat(" .tex entries but all failed to read"),
                },
            )
        } else {
            Err(FetchError::TextUnavailable { arxiv_id: id.clone() })
        },
    }
}

fn marks_tex(listing: &Vec<TarEntry>) -> (r: Vec<bool>)
    ensures
        r@.len() == listing@.len(),
        forall|i: int| 0 <= i < r@.len() ==> #[trigger] r@[i] == tex_named(listing@[i]@),
{
    let suffix = text::chars_of(".tex");
    let mut marks: Vec<bool> = Vec::new();
    let mut i: usize = 0;
    while i < listing.len()
        invariant
            i <= listing.len(),
            suffix@ == ".tex"@,
            marks@.len() == i,
            forall|j: int| 0 <= j < i ==> #[trigger] marks@[j] == tex_named(listing@[j]@),
        decreases listing.len() - i,
    {
        let mark = match &listing[i] {
            TarEntry::Entry { path: p, .. } => {
                let name = text::chars_of(p.as_str());
                text::ends_with(name.as_slice(), suffix.as_slice())
            },
            _ => false,
        };
        marks.push(mark);
        i += 1;
    }
    marks
}

/// Picks the main LaTeX file of a tar archive. Of the other entries no content
/// is read.
pub fn extract_from_tar(id: &ArxivId, data: &[u8]) -> (r: Result<ExtractedTex, FetchError>)
    ensures
        tex_result(r, id@, tex_of_tar(data@)),
{
    match list_tar(data) {
        Ok(heads) => {
            let listing = listing_of_heads(&heads);
            let marks = marks_tex(&listing);
            let entries = read_marked(data, &listing, &marks);
            assert(tar_views(entries@) =~= tex_entries(data@, tar_views(listing@)));
            main_tex_of_entries(id, &entries)
        },
        Err(e) => Err(
            FetchError::SourceSchema { hint: "tar read failed: ".to_string().concat(e.as_str()) },
        ),
    }
}

/// Finds the LaTeX text of a submission, whatever form it comes in.
pub fn extract_tex(id: &ArxivId, data: &[u8]) -> (r: Result<ExtractedTex, FetchError>)
    ensures
        tex_result(r, id@, tex_of_body(data@)),
{
    if looks_like_pdf(data) {
        return Err(FetchError::TextUnavailable { arxiv_id: id.clone() });
    }
    if !looks_like_gzip(data) {
        return plain_result(id, bytes::lossy_text(data));
    }
    let unpacked = match gunzip(data, u64::MAX) {
        Ok(v) => v,
        Err(e) => return Err(
            FetchError::SourceSchema {
                hint: "gzip decompress of arXiv src failed: ".to_string().concat(e.as_str()),
            },
        ),
    };
    if looks_like_tar(unpacked.as_slice()) {
        extract_from_tar(id, unpacked.as_slice())
    } else {
        plain_result(id, bytes::lossy_text(unpacked.as_slice()))
    }
}

/// The main file is none lighter than any other, and heavier than every file
/// behind it.
pub proof fn law_main_file_is_heaviest(files: Seq<(Seq<char>, Seq<char>)>)
    requires
        files.len() > 0,
    ensures
        0 <= heaviest(files) < files.len(),
        forall|i: int|
            0 <= i < files.len() ==> tex_weight(#[trigger] files[i]) <= tex_weight(
                files[heaviest(files)],
            ),
        forall|i: int|
            heaviest(files) < i < files.len() ==> tex_weight(#[trigger] files[i]) < tex_weight(
                files[heaviest(files)],
            ),
    decreases files.len(),
{
    if files.len() > 1 {
        let d = files.drop_last();
        law_main_file_is_heaviest(d);
        let k = heaviest(d);
        let h = heaviest(files);
        assert(d[k] == files[k]);
        assert forall|i: int| 0 <= i < files.len() implies tex_weight(#[trigger] files[i])
            <= tex_weight(files[h]) by {
            if i < d.len() {
                assert(d[i] == files[i]);
            }
        }
        assert forall|i: int| h < i < files.len() implies tex_weight(#[trigger] files[i])
            < tex_weight(files[h]) by {
            if i < d.len() {
                assert(d[i] == files[i]);
            }
        }
    }
}

/// A file with a `\documentclass` beats every file without one that is not
/// itself nine hundred thousand bytes longer.
pub proof fn law_documentclass_decides(
    with_class: (Seq<char>, Seq<char>),
    without: (Seq<char>, Seq<char>),
)
    requires
        text::contains_text(with_class.1, "\\documentclass"@),
        !text::contains_text(without.1, "\\documentclass"@),
        text::byte_len(without.1) < text::byte_len(with_class.1) + 900_000,
    ensures
        tex_weight(without) < tex_weight(with_class),
{
}

/// Among files with a `\documentclass` a `main.tex` wins, unless another file
/// is a hundred thousand bytes longer.
pub proof fn law_main_tex_breaks_ties(
    main: (Seq<char>, Seq<char>),
    other: (Seq<char>, Seq<char>),
)
    requires
        text::contains_text(main.1, "\\documentclass"@) == text::contains_text(
            other.1,
            "\\documentclass"@,
        ),
        "main.tex"@.is_suffix_of(main.0),
        !"main.tex"@.is_suffix_of(other.0),
        text::byte_len(other.1) < text::byte_len(main.1) + 100_000,
    ensures
        tex_weight(other) < tex_weight(main),
{
}

// ---------------------------------------------------------------------------
// Sources and their cache
// ---------------------------------------------------------------------------

/// The LaTeX source of a submission.
#[derive(Debug, Clone, PartialEq, Eq)]
pub struct PaperTexSource {
    /// The submission.
    pub arxiv_id: String,
    /// Name of the main file, where the submission is an archive.
    pub main_file: Option<String>,
    /// The text of the main file.
    pub tex_source: String,
    /// Number of characters in `tex_source`.
    pub char_count: usize,
    /// The text was cut.
    pub truncated: bool,
    /// Where the submission was retrieved from.
    pub retrieved_from: String,
}

/// Reads the response to a request for a submission's source.
pub fn read_tex_source(id: &ArxivId, body: &[u8], final_url: &WebUrl) -> (r: Result<
    PaperTexSource,
    FetchError,
>)
    ensures
        match tex_of_body(body@) {
            TexOutcome::Tex { main_file, content } => {
                &&& r is Ok
                &&& r->Ok_0.arxiv_id@ == id@
                &&& text::opt_view(r->Ok_0.main_file) == main_file
                &&& r->Ok_0.tex_source@ == content
                &&& r->Ok_0.char_count == content.len()
                &&& !r->Ok_0.truncated
                &&& r->Ok_0.retrieved_from@ == final_url@.href
            },
            TexOutcome::Unavailable => r matches Err(FetchError::TextUnavailable { arxiv_id })
                && arxiv_id@ == id@,
            TexOutcome::Schema(hint) => r matches Err(FetchError::SourceSchema { hint: h }) && h@
                == hint,
        },
{
    match extract_tex(id, body) {
        Err(e) => Err(e),
        Ok(extracted) => {
            let char_count = text::chars_of(extracted.content.as_str()).len();
            Ok(
                PaperTexSource {
                    arxiv_id: id.as_str().to_string(),
                    main_file: extracted.main_file,
                    tex_source: extracted.content,
                    char_count,
                    truncated: false,
                    retrieved_from: final_url.href().to_string(),
                },
            )
        },
    }
}

/// Cuts a source to at most `max_chars` characters, and says so.
pub fn apply_max_chars(full: PaperTexSource, max_chars: Option<usize>) -> (r: PaperTexSource)
    ensures
        max_chars is None || full.char_count <= max_chars->Some_0 ==> r == full,
        max_chars is Some && full.char_count > max_chars->Some_0 ==> {
            &&& r.tex_source@ == full.tex_source@.take(
                if full.tex_source@.len() <= max_chars->Some_0 {
                    full.tex_source@.len() as int
                } else {
                    max_chars->Some_0 as int
                },
            )
            &&& r.char_count == max_chars->Some_0
            &&& r.truncated
            &&& r.arxiv_id == full.arxiv_id
            &&& r.main_file == full.main_file
            &&& r.retrieved_from == full.retrieved_from
        },
{
    let max = match max_chars {
        None => return full,
        Some(m) => m,
    };
    if full.char_count <= max {
        return full;
    }
    let v = text::chars_of(full.tex_source.as_str());
    let n = if v.len() <= max {
        v.len()
    } else {
        max
    };
    PaperTexSource {
        arxiv_id: full.arxiv_id,
        main_file: full.main_file,
        tex_source: text::string_of(vstd::slice::slice_subrange(v.as_slice(), 0, n)),
        char_count: max,
        truncated: true,
        retrieved_from: full.retrieved_from,
    }
}

/// Where the source of a submission is cached.
pub open spec fn cache_path(cache_root: Seq<char>, id: Seq<char>) -> Seq<char> {
    paths::joined(
        paths::joined(cache_root, "tex-src"@),
        safekey::key_of_text(safekey::raw_key(RefModel::Arxiv(id))) + ".json"@,
    )
}

/// Where the source of a submission is cached.
pub fn cache_file(cache_root: &str, id: &ArxivId) -> (r: String)
    ensures
        r@ == cache_path(cache_root@, id@),
{
    let key = Ref::Arxiv(id.clone()).safekey();
    let dir = paths::join_path(cache_root, "tex-src");
    let name = key.as_str().to_string().concat(".json");
    paths::join_path(dir.as_str(), name.as_str())
}

/// A cached source with what is kept beside it.
#[derive(Debug, Clone, PartialEq, Eq)]
pub struct CacheEntry {
    /// Version of the layout.
    pub schema_version: String,
    /// When the source was fetched, as an RFC 3339 time.
    pub fetched_at: String,
    /// Seconds for which the entry is served.
    pub ttl_seconds: i64,
    /// The source.
    pub inner: PaperTexSource,
}

/// The time from an RFC 3339 time to an instant, in whole seconds towards zero
/// and the nanoseconds of the same sign left over; none where the text or the
/// instant is no time.
pub uninterp spec fn elapsed_since(rfc3339: Seq<char>, now_secs: i64, now_nanos: u32) -> Option<
    (i64, i32),
>;

/// Takes the difference with `chrono::DateTime::signed_duration_since`, of
/// times that `chrono::DateTime::from_timestamp` and
/// `chrono::DateTime::parse_from_rfc3339` made. It depends on the arguments
/// alone; the whole seconds and the nanoseconds have no opposite signs.
#[verifier::external_body]
fn time_since(rfc3339: &str, now_secs: i64, now_nanos: u32) -> (r: Option<(i64, i32)>)
    ensures
        r == elapsed_since(rfc3339@, now_secs, now_nanos),
{
    let now = chrono::DateTime::from_timestamp(now_secs, now_nanos)?;
    let fetched = chrono::DateTime::parse_from_rfc3339(rfc3339).ok()?.to_utc();
    let d = now.signed_duration_since(fetched);
    Some((d.num_seconds(), d.subsec_nanos()))
}

/// Whether a time that has passed is longer than a number of seconds.
pub open spec fn longer_than(elapsed: (i64, i32), seconds: i64) -> bool {
    elapsed.0 * 1_000_000_000 + elapsed.1 > seconds * 1_000_000_000
}

/// The entry is served, given the time that has passed since it was fetched:
/// its layout is known, and the time is known and not too long.
pub open spec fn servable(entry: CacheEntry, elapsed: Option<(i64, i32)>) -> bool {
    entry.schema_version@ == "1.0"@ && elapsed is Some && !longer_than(
        elapsed->Some_0,
        entry.ttl_seconds,
    )
}

/// The source of an entry that is served.
pub fn serve_entry(entry: CacheEntry, elapsed: Option<(i64, i32)>) -> (r: Option<PaperTexSource>)
    ensures
        r is Some == servable(entry, elapsed),
        r is Some ==> r->Some_0 == entry.inner,
{
    if !text::same(entry.schema_version.as_str(), "1.0") {
        return None;
    }
    let (secs, nanos) = match elapsed {
        None => return None,
        Some(e) => e,
    };
    if secs as i128 * 1_000_000_000 + nanos as i128 > entry.ttl_seconds as i128 * 1_000_000_000 {
        None
    } else {
        Some(entry.inner)
    }
}

/// The source of an entry, where it can be served at the given instant.
pub fn cache_read_at(entry: CacheEntry, now_secs: i64, now_nanos: u32) -> (r: Option<PaperTexSource>)
    ensures
        r is Some == servable(entry, elapsed_since(entry.fetched_at@, now_secs, now_nanos)),
        r is Some ==> r->Some_0 == entry.inner,
{
    let elapsed = time_since(entry.fetched_at.as_str(), now_secs, now_nanos);
    serve_entry(entry, elapsed)
}

/// The entry that is written for a source fetched at the given time.
pub fn cache_write_at(full: PaperTexSource, fetched_at: &str) -> (r: CacheEntry)
    ensures
        r.schema_version@ == "1.0"@,
        r.fetched_at@ == fetched_at@,
        r.ttl_seconds == TEX_SRC_CACHE_TTL_DAYS * 86_400,
        r.inner == full,
{
    CacheEntry {
        schema_version: "1.0".to_string(),
        fetched_at: fetched_at.to_string(),
        ttl_seconds: TEX_SRC_CACHE_TTL_DAYS * 86_400,
        inner: full,
    }
}

/// An entry that was written is served unchanged for as long as the time that
/// has passed is known and at most a week, and not after.
pub proof fn law_cache_gives_back_what_was_written(entry: CacheEntry, elapsed: (i64, i32))
    requires
        entry.schema_version@ == "1.0"@,
        entry.ttl_seconds == TEX_SRC_CACHE_TTL_DAYS * 86_400,
    ensures
        servable(entry, Some(elapsed)) <==> elapsed.0 * 1_000_000_000 + elapsed.1
            <= 604_800_000_000_000,
        !servable(entry, None),
{
}

/// The path below which the source of a submission is served.
pub open spec fn src_path(id: Seq<char>) -> Seq<char> {
    "/src/"@ + id
}

/// The URL of a submission's source.
pub fn src_url(base: &WebUrl, id: &ArxivId) -> (r: Result<WebUrl, FetchError>)
    ensures
        match urls::url_joined(base@, src_path(id@)) {
            Ok(u) => r is Ok && r->Ok_0@ == u,
            Err(e) => r matches Err(FetchError::SourceSchema { hint }) && hint@
                == "arXiv src URL construction failed: "@ + e,
        },
{
    let path = "/src/".to_string().concat(id.as_str());
    match base.join(path.as_str()) {
        Ok(u) => Ok(u),
        Err(e) => Err(
            FetchError::SourceSchema {
                hint: "arXiv src URL construction failed: ".to_string().concat(e.as_str()),
            },
        ),
    }
}

/// The base below which sources are served: the given override, or arXiv's
/// export host.
pub fn resolve_arxiv_src_base(base_override: Option<&str>) -> (r: Result<WebUrl, String>)
    ensures
        match urls::url_of(
            match base_override {
                Some(b) => b@,
                None => "https://export.arxiv.org"@,
            },
        ) {
            Ok(u) => r is Ok && r->Ok_0@ == u,
            Err(e) => r is Err && r->Err_0@ == "DOIGET_ARXIV_SRC_BASE is not a valid URL: "@ + e,
        },
{
    let raw = match base_override {
        Some(b) => b,
        None => "https://export.arxiv.org",
    };
    match WebUrl::parse(raw) {
        Ok(u) => Ok(u),
        Err(e) => Err(
            "DOIGET_ARXIV_SRC_BASE is not a valid URL: ".to_string().concat(e.as_str()),
        ),
    }
}

// ---------------------------------------------------------------------------
// Files
// ---------------------------------------------------------------------------

/// Which files of a submission are wanted.
#[derive(Debug, Clone, Copy, PartialEq, Eq, Hash, Structural)]
pub enum BundleFilter {
    /// Every regular file.
    All,
    /// Figures only.
    FiguresOnly,
}

/// A file of a submission. Its path is safe to join to any directory.
#[derive(Debug, PartialEq, Eq)]
pub struct SourceFile {
    pub(crate) path: String,
    pub(crate) bytes: Vec<u8>,
}

impl View for SourceFile {
    type V = (Seq<char>, Seq<u8>);

    closed spec fn view(&self) -> (Seq<char>, Seq<u8>) {
        (self.path@, self.bytes@)
    }
}

impl SourceFile {
    #[verifier::type_invariant]
    closed spec fn wf(&self) -> bool {
        paths::safe_path(self.path@)
    }

    /// The relative path, with `/` between its segments.
    pub fn path(&self) -> (r: &str)
        ensures
            r@ == self@.0,
            paths::safe_path(r@),
    {
        proof {
            use_type_invariant(self);
        }
        self.path.as_str()
    }

    /// The content.
    pub fn bytes(&self) -> (r: &Vec<u8>)
        ensures
            r@ == self@.1,
    {
        &self.bytes
    }
}

/// The extensions of figures.
pub open spec fn figure_extension(ext: Seq<char>) -> bool {
    ext == "pdf"@ || ext == "eps"@ || ext == "ps"@ || ext == "png"@ || ext == "jpg"@ || ext
        == "jpeg"@ || ext == "gif"@ || ext == "svg"@
}

/// The path names a figure, by its extension in any case.
pub open spec fn figure_path(path: Seq<char>) -> bool {
    match paths::extension(paths::file_name(path)) {
        Some(ext) => figure_extension(text::lower(ext)),
        None => false,
    }
}

/// Whether a path names a figure.
pub fn is_figure(path: &str) -> (r: bool)
    ensures
        r == figure_path(path@),
{
    match paths::extension_of(path) {
        Some(e) => {
            let low = text::lower_of(e.as_str());
            let ext = low.as_str();
            text::same(ext, "pdf") || text::same(ext, "eps") || text::same(ext, "ps")
                || text::same(ext, "png") || text::same(ext, "jpg") || text::same(ext, "jpeg")
                || text::same(ext, "gif") || text::same(ext, "svg")
        },
        None => false,
    }
}

/// Where an entry goes: a regular file with a path that is let through and
/// wanted.
pub open spec fn entry_target(e: TarModel, filter: BundleFilter) -> Option<Seq<char>> {
    match e {
        TarModel::Entry { is_file: true, path: p, .. } => match paths::sanitized(p) {
            Some(safe) => if filter == BundleFilter::All || figure_path(safe) {
                Some(safe)
            } else {
                None
            },
            None => None,
        },
        _ => None,
    }
}

/// The file that an entry gives.
pub open spec fn entry_file(e: TarModel, filter: BundleFilter) -> Option<(Seq<char>, Seq<u8>)> {
    match entry_target(e, filter) {
        Some(p) => match e {
            TarModel::Entry { data: Some(d), .. } => Some((p, d)),
            _ => None,
        },
        None => None,
    }
}

/// The entry should have given a file, or might have, and could not be read.
pub open spec fn entry_unreadable(e: TarModel, filter: BundleFilter) -> bool {
    match e {
        TarModel::Broken => true,
        TarModel::Entry { data, .. } => entry_target(e, filter) is Some && data is None,
    }
}

/// The files of an archive, in order.
pub open spec fn bundle_files(entries: Seq<TarModel>, filter: BundleFilter) -> Seq<
    (Seq<char>, Seq<u8>),
>
    decreases entries.len(),
{
    if entries.len() == 0 {
        Seq::empty()
    } else {
        let before = bundle_files(entries.drop_last(), filter);
        match entry_file(entries.last(), filter) {
            Some(f) => before.push(f),
            None => before,
        }
    }
}

/// Number of entries that could not be read.
pub open spec fn unreadable_count(entries: Seq<TarModel>, filter: BundleFilter) -> nat
    decreases entries.len(),
{
    if entries.len() == 0 {
        0
    } else {
        unreadable_count(entries.drop_last(), filter) + if entry_unreadable(entries.last(), filter) {
            1nat
        } else {
            0nat
        }
    }
}

/// What can become of a request for files.
pub enum BundleOutcome {
    /// There are no such files.
    Unavailable,
    /// The submission cannot be understood.
    Schema(Seq<char>),
    /// The files.
    Files(Seq<(Seq<char>, Seq<u8>)>),
}

/// What was asked for, in messages.
pub open spec fn filter_kind(filter: BundleFilter) -> Seq<char> {
    match filter {
        BundleFilter::All => "source bundle"@,
        BundleFilter::FiguresOnly => "figures"@,
    }
}

/// What a list of files holds.
pub open spec fn file_views(v: Seq<SourceFile>) -> Seq<(Seq<char>, Seq<u8>)> {
    Seq::new(v.len(), |i: int| v[i]@)
}

/// A result and the outcome that it stands for.
pub open spec fn bundle_result(
    r: Result<Vec<SourceFile>, FetchError>,
    id: Seq<char>,
    filter: BundleFilter,
    outcome: BundleOutcome,
) -> bool {
    match outcome {
        BundleOutcome::Unavailable => r matches Err(
            FetchError::SourceUnavailable { arxiv_id, kind },
        ) && arxiv_id@ == id && kind@ == filter_kind(filter),
        BundleOutcome::Schema(hint) => r matches Err(FetchError::SourceSchema { hint: h }) && h@
            == hint,
        BundleOutcome::Files(files) => r is Ok && file_views(r->Ok_0@) == files,
    }
}

/// What becomes of an archive: its files, or the reason that there are none.
pub open spec fn bundle_of_entries(
    entries: Seq<TarModel>,
    filter: BundleFilter,
) -> BundleOutcome {
    if bundle_files(entries, filter).len() > 0 {
        BundleOutcome::Files(bundle_files(entries, filter))
    } else if unreadable_count(entries, filter) > 0 {
        BundleOutcome::Schema(
            "arXiv src tar had "@ + text::decimal(unreadable_count(entries, filter))
                + " unreadable entr(y/ies) and no usable files"@,
        )
    } else {
        BundleOutcome::Unavailable
    }
}

/// The entries of an archive, with the content of those that are wanted.
pub open spec fn bundle_entries(
    data: Seq<u8>,
    listing: Seq<TarModel>,
    filter: BundleFilter,
) -> Seq<TarModel> {
    tar_read(data, listing, |e: TarModel| entry_target(e, filter) is Some)
}

/// What becomes of the bytes of a submission.
pub open spec fn bundle_of_body(data: Seq<u8>, filter: BundleFilter) -> BundleOutcome {
    if starts_pdf(data) || !starts_gzip(data) {
        BundleOutcome::Unavailable
    } else {
        match gunzipped(data, (SRC_MAX_DECOMPRESSED_BYTES + 1) as u64) {
            Err(e) => BundleOutcome::Schema("gzip decompress of arXiv src failed: "@ + e),
            Ok(d) => if d.len() > SRC_MAX_DECOMPRESSED_BYTES {
                BundleOutcome::Schema(
                    "arXiv src decompressed size exceeds 500000000 bytes (possible gzip bomb); refusing"@,
                )
            } else if !is_tar(d) {
                BundleOutcome::Unavailable
            } else {
                match tar_listing(d) {
                    Err(e) => BundleOutcome::Schema("tar read failed: "@ + e),
                    Ok(listing) => bundle_of_entries(
                        bundle_entries(d, listing, filter),
                        filter,
                    ),
                }
            },
        }
    }
}

/// The error that a submission holds no such files.
pub fn no_files(id: &ArxivId, filter: BundleFilter) -> (r: FetchError)
    ensures
        r matches FetchError::SourceUnavailable { arxiv_id, kind } && arxiv_id@ == id@ && kind@
            == filter_kind(filter),
{
    FetchError::SourceUnavailable {
        arxiv_id: id.clone(),
        kind: match filter {
            BundleFilter::All => "source bundle",
            BundleFilter::FiguresOnly => "figures",
        },
    }
}

fn copy_bytes(v: &Vec<u8>) -> (r: Vec<u8>)
    ensures
        r@ == v@,
{
    vstd::slice::slice_to_vec(v.as_slice())
}

/// Collects the files of an archive.
pub fn bundle_from_entries(id: &ArxivId, entries: &Vec<TarEntry>, filter: BundleFilter) -> (r:
    Result<Vec<SourceFile>, FetchError>)
    ensures
        bundle_result(r, id@, filter, bundle_of_entries(tar_views(entries@), filter)),
{
    let ghost all = tar_views(entries@);
    let mut files: Vec<SourceFile> = Vec::new();
    let mut unreadable: usize = 0;
    let mut i: usize = 0;
    assert(file_views(files@) =~= Seq::<(Seq<char>, Seq<u8>)>::empty());
    while i < entries.len()
        invariant
            i <= entries.len(),
            all == tar_views(entries@),
            file_views(files@) == bundle_files(all.take(i as int), filter),
            unreadable == unreadable_count(all.take(i as int), filter),
            unreadable <= i,
        decreases entries.len() - i,
    {
        let ghost t = all.take(i + 1);
        assert(t.drop_last() =~= all.take(i as int));
        assert(t.last() == entries@[i as int]@);
        match &entries[i] {
            TarEntry::Broken => {
                unreadable = unreadable + 1;
            },
            TarEntry::Entry { is_file, path, data } => if *is_file {
                match paths::sanitize_entry_path(path.as_str()) {
                    None => {},
                    Some(safe) => {
                        let wanted = match filter {
                            BundleFilter::All => true,
                            BundleFilter::FiguresOnly => is_figure(safe.as_str()),
                        };
                        if wanted {
                            match data {
                                None => {
                                    unreadable = unreadable + 1;
                                },
                                Some(d) => {
                                    let ghost before = file_views(files@);
                                    let ghost f = (safe@, d@);
                                    files.push(SourceFile { path: safe, bytes: copy_bytes(d) });
                                    assert(file_views(files@) =~= before.push(f));
                                },
                            }
                        }
                    },
                }
            },
        }
        i += 1;
    }
    assert(all.take(i as int) =~= all);
    if files.len() > 0 {
        Ok(files)
    } else if unreadable > 0 {
        Err(
            FetchError::SourceSchema {
                hint: "arXiv src tar had ".to_string().concat(
                    text::decimal_of(unreadable as u64).as_str(),
                ).concat(" unreadable entr(y/ies) and no usable files"),
            },
        )
    } else {
        Err(no_files(id, filter))
    }
}

fn marks_wanted(listing: &Vec<TarEntry>, filter: BundleFilter) -> (r: Vec<bool>)
    ensures
        r@.len() == listing@.len(),
        forall|i: int|
            0 <= i < r@.len() ==> #[trigger] r@[i] == (entry_target(
                listing@[i]@,
                filter,
            ) is Some),
{
    let mut marks: Vec<bool> = Vec::new();
    let mut i: usize = 0;
    while i < listing.len()
        invariant
            i <= listing.len(),
            marks@.len() == i,
            forall|j: int|
                0 <= j < i ==> #[trigger] marks@[j] == (entry_target(
                    listing@[j]@,
                    filter,
                ) is Some),
        decreases listing.len() - i,
    {
        let mark = match &listing[i] {
            TarEntry::Entry { is_file: true, path: p, .. } =>
                match paths::sanitize_entry_path(p.as_str()) {
                Some(safe) => match filter {
                    BundleFilter::All => true,
                    BundleFilter::FiguresOnly => is_figure(safe.as_str()),
                },
                None => false,
            },
            _ => false,
        };
        marks.push(mark);
        i += 1;
    }
    marks
}

/// Unpacks a submission and collects the wanted files. Of the other entries no
/// content is read.
pub fn extract_bundle(id: &ArxivId, data: &[u8], filter: BundleFilter) -> (r: Result<
    Vec<SourceFile>,
    FetchError,
>)
    ensures
        bundle_result(r, id@, filter, bundle_of_body(data@, filter)),
{
    if looks_like_pdf(data) || !looks_like_gzip(data) {
        return Err(no_files(id, filter));
    }
    let unpacked = match gunzip(data, SRC_MAX_DECOMPRESSED_BYTES + 1) {
        Ok(v) => v,
        Err(e) => return Err(
            FetchError::SourceSchema {
                hint: "gzip decompress of arXiv src failed: ".to_string().concat(e.as_str()),
            },
        ),
    };
    if unpacked.len() as u64 > SRC_MAX_DECOMPRESSED_BYTES {
        return Err(
            FetchError::SourceSchema {
                hint:
                    "arXiv src decompressed size exceeds 500000000 bytes (possible gzip bomb); refusing".to_string(),
            },
        );
    }
    if !looks_like_tar(unpacked.as_slice()) {
        return Err(no_files(id, filter));
    }
    match list_tar(unpacked.as_slice()) {
        Ok(heads) => {
            let listing = listing_of_heads(&heads);
            let marks = marks_wanted(&listing, filter);
            let entries = read_marked(unpacked.as_slice(), &listing, &marks);
            assert(tar_views(entries@) =~= bundle_entries(
                unpacked@,
                tar_views(listing@),
                filter,
            ));
            bundle_from_entries(id, &entries, filter)
        },
        Err(e) => Err(
            FetchError::SourceSchema { hint: "tar read failed: ".to_string().concat(e.as_str()) },
        ),
    }
}

/// Every path of a bundle is safe to join to any directory, whatever the
/// archive says; and where figures are asked for, every path names one.
pub proof fn law_bundle_paths_are_safe(entries: Seq<TarModel>, filter: BundleFilter)
    ensures
        forall|i: int|
            0 <= i < bundle_files(entries, filter).len() ==> paths::safe_path(
                (#[trigger] bundle_files(entries, filter)[i]).0,
            ),
        filter == BundleFilter::FiguresOnly ==> forall|i: int|
            0 <= i < bundle_files(entries, filter).len() ==> figure_path(
                (#[trigger] bundle_files(entries, filter)[i]).0,
            ),
    decreases entries.len(),
{
    if entries.len() > 0 {
        law_bundle_paths_are_safe(entries.drop_last(), filter);
        if entry_file(entries.last(), filter) is Some {
            match entries.last() {
                TarModel::Entry { is_file: true, path: p, .. } => {
                    paths::law_sanitized_paths_are_safe(p);
                },
                _ => {},
            }
        }
        let before = bundle_files(entries.drop_last(), filter);
        let files = bundle_files(entries, filter);
        assert forall|i: int| 0 <= i < files.len() implies paths::safe_path((#[trigger] files[i]).0)
            && (filter == BundleFilter::FiguresOnly ==> figure_path(files[i].0)) by {
            if i < before.len() {
                assert(files[i] == before[i]);
            }
        }
    }
}

proof fn lemma_tex_files(a: Seq<TarModel>, b: Seq<TarModel>)
    ensures
        tex_files(a + b) == tex_files(a) + tex_files(b),
        tex_count(a + b) == tex_count(a) + tex_count(b),
    decreases b.len(),
{
    if b.len() == 0 {
        assert(a + b =~= a);
        assert(tex_files(a) + tex_files(b) =~= tex_files(a));
    } else {
        lemma_tex_files(a, b.drop_last());
        assert((a + b).drop_last() =~= a + b.drop_last());
        assert((a + b).last() == b.last());
        assert(tex_files(a + b) =~= tex_files(a) + tex_files(b));
    }
}

/// Every LaTeX file of an archive is looked at: those of two archives one behind
/// the other are those of the first and those of the second, and an entry is one
/// where its name ends in `.tex` and its content is text that is not blank.
pub proof fn law_every_tex_file_is_looked_at(
    a: Seq<TarModel>,
    b: Seq<TarModel>,
    is_file: bool,
    path: Seq<char>,
    data: Seq<u8>,
)
    ensures
        tex_files(a + b) == tex_files(a) + tex_files(b),
        ({
            let e = TarModel::Entry { is_file, path, data: Some(data) };
            let fine = ".tex"@.is_suffix_of(path) && vstd::utf8::valid_utf8(data) && text::trim(
                vstd::utf8::decode_utf8(data),
            ).len() > 0;
            &&& fine ==> tex_files(seq![e]) == seq![(path, vstd::utf8::decode_utf8(data))]
            &&& !fine ==> tex_files(seq![e]).len() == 0
        }),
        tex_files(seq![TarModel::Broken]).len() == 0,
{
    lemma_tex_files(a, b);
    let e = TarModel::Entry { is_file, path, data: Some(data) };
    let one = seq![e];
    assert(one.drop_last() =~= Seq::<TarModel>::empty());
    assert(one.last() == e);
    let broken = seq![TarModel::Broken];
    assert(broken.drop_last() =~= Seq::<TarModel>::empty());
    assert(broken.last() == TarModel::Broken);
    assert(tex_files(Seq::<TarModel>::empty()) =~= Seq::<(Seq<char>, Seq<char>)>::empty());
    match tex_file(e) {
        Some(f) => {
            assert(tex_files(one) =~= seq![f]);
        },
        None => {},
    }
}

/// What a LaTeX file weighs: its bytes, a million more with a `\\documentclass`,
/// a hundred thousand more under a name that ends in `main.tex`.
pub proof fn law_weights_count_class_name_and_size(name: Seq<char>, content: Seq<char>)
    ensures
        tex_weight((name, content)) == vstd::utf8::encode_utf8(content).len() + (if exists|i: int|
            0 <= i <= content.len() - 14 && #[trigger] content.subrange(i, i + 14)
                == "\\documentclass"@ {
            1_000_000int
        } else {
            0
        }) + (if "main.tex"@.is_suffix_of(name) {
            100_000int
        } else {
            0
        }),
{
    reveal_strlit("\\documentclass");
    let p = "\\documentclass"@;
    assert(p.len() == 14);
    if text::contains_text(content, p) {
        let i = choose|i: int| text::text_at(content, p, i);
        assert(content.subrange(i, i + 14) == p);
    }
    if exists|i: int|
        0 <= i <= content.len() - 14 && #[trigger] content.subrange(i, i + 14) == p {
        let i = choose|i: int|
            0 <= i <= content.len() - 14 && #[trigger] content.subrange(i, i + 14) == p;
        assert(text::text_at(content, p, i));
    }
}

/// The text of a submission is that of its heaviest LaTeX file, and of the last
/// of those that weigh as much.
pub proof fn law_the_heaviest_file_is_the_text(entries: Seq<TarModel>, k: int)
    requires
        0 <= k < tex_files(entries).len(),
        forall|i: int|
            0 <= i < k ==> tex_weight(#[trigger] tex_files(entries)[i]) <= tex_weight(
                tex_files(entries)[k],
            ),
        forall|i: int|
            k < i < tex_files(entries).len() ==> tex_weight(#[trigger] tex_files(entries)[i])
                < tex_weight(tex_files(entries)[k]),
    ensures
        tex_of_entries(entries) == (TexOutcome::Tex {
            main_file: Some(tex_files(entries)[k].0),
            content: tex_files(entries)[k].1,
        }),
{
    let files = tex_files(entries);
    law_main_file_is_heaviest(files);
    let h = heaviest(files);
    if h < k {
        assert(tex_weight(files[k]) < tex_weight(files[h]));
        assert(tex_weight(files[h]) <= tex_weight(files[k]));
    } else if h > k {
        assert(tex_weight(files[h]) < tex_weight(files[k]));
        assert(tex_weight(files[k]) <= tex_weight(files[h]));
    }
}

/// An archive without LaTeX text is told so: as one whose LaTeX files could not
/// be read, with their number, or as one that has none.
pub proof fn law_archives_without_text_are_told(a: Seq<TarModel>, b: Seq<TarModel>, e: TarModel)
    ensures
        tex_files(a).len() == 0 && tex_count(a) == 0 ==> tex_of_entries(a) is Unavailable,
        tex_files(a).len() == 0 && tex_count(a) > 0 ==> tex_of_entries(a) == TexOutcome::Schema(
            "tar contained "@ + text::decimal(tex_count(a))
                + " .tex entries but all failed to read"@,
        ),
        tex_count(a + b) == tex_count(a) + tex_count(b),
        tex_count(seq![e]) == if (e matches TarModel::Entry { path, .. } && ".tex"@.is_suffix_of(
            path,
        )) {
            1nat
        } else {
            0
        },
{
    lemma_tex_files(a, b);
    let one = seq![e];
    assert(one.drop_last() =~= Seq::<TarModel>::empty());
    assert(one.last() == e);
    assert(tex_count(Seq::<TarModel>::empty()) == 0);
}

/// A submission is read for what it is: a PDF has no text; what is not packed is
/// text; what is packed is unpacked, and is an archive where it says so and text
/// else. Blank text is none.
pub proof fn law_submissions_are_read_for_what_they_are(data: Seq<u8>, unpacked: Seq<u8>)
    ensures
        data.len() >= 5 && data.take(5) == seq![0x25u8, 0x50u8, 0x44u8, 0x46u8, 0x2Du8]
            ==> tex_of_body(data) is Unavailable,
        data.len() > 0 && data[0] != 0x25 && data[0] != 0x1F && text::trim(
            bytes::utf8_lossy(data),
        ).len() > 0 ==> tex_of_body(data) == (TexOutcome::Tex {
            main_file: None,
            content: bytes::utf8_lossy(data),
        }),
        data.len() > 0 && data[0] != 0x25 && data[0] != 0x1F && text::trim(
            bytes::utf8_lossy(data),
        ).len() == 0 ==> tex_of_body(data) is Unavailable,
        data.len() >= 2 && data[0] == 0x1F && data[1] == 0x8B ==> {
            &&& gunzipped(data, u64::MAX) matches Err(e) ==> tex_of_body(data)
                == TexOutcome::Schema("gzip decompress of arXiv src failed: "@ + e)
            &&& gunzipped(data, u64::MAX) == Ok::<Seq<u8>, Seq<char>>(unpacked) ==> {
                let tar = unpacked.len() > 262 && unpacked.subrange(257, 262) == seq![
                    0x75u8,
                    0x73u8,
                    0x74u8,
                    0x61u8,
                    0x72u8,
                ];
                &&& tar ==> tex_of_body(data) == tex_of_tar(unpacked)
                &&& !tar && text::trim(bytes::utf8_lossy(unpacked)).len() > 0 ==> tex_of_body(data)
                    == (TexOutcome::Tex {
                    main_file: None,
                    content: bytes::utf8_lossy(unpacked),
                })
                &&& !tar && text::trim(bytes::utf8_lossy(unpacked)).len() == 0 ==> tex_of_body(
                    data,
                ) is Unavailable
            }
        },
{
    let magic = seq![0x25u8, 0x50u8, 0x44u8, 0x46u8, 0x2Du8];
    if data.len() >= 5 && data.take(5) == magic {
        assert(data.subrange(0, 5) =~= magic);
        assert(magic.is_prefix_of(data));
    }
    if data.len() > 0 && magic.is_prefix_of(data) {
        assert(data.subrange(0, 5)[0] == 0x25);
        assert(data[0] == 0x25);
    }
}

/// An entry of an archive is known by its head, in the order of the archive, and
/// has its own content where that was asked for.
pub proof fn law_entries_have_their_own_content(
    data: Seq<u8>,
    heads: Seq<Option<(bool, Seq<u8>)>>,
    wanted: spec_fn(TarModel) -> bool,
    i: int,
)
    requires
        0 <= i < heads.len(),
    ensures
        ({
            let read = tar_read(data, entries_listed(heads), wanted);
            let listed = entries_listed(heads)[i];
            &&& read.len() == heads.len()
            &&& heads[i] is None ==> read[i] is Broken
            &&& heads[i] matches Some((is_file, path)) ==> read[i] == (TarModel::Entry {
                is_file,
                path: bytes::utf8_lossy(path),
                data: if wanted(listed) {
                    tar_content(data, i)
                } else {
                    None
                },
            })
        }),
{
}

proof fn lemma_bundle_files(a: Seq<TarModel>, b: Seq<TarModel>, filter: BundleFilter)
    ensures
        bundle_files(a + b, filter) == bundle_files(a, filter) + bundle_files(b, filter),
        unreadable_count(a + b, filter) == unreadable_count(a, filter) + unreadable_count(
            b,
            filter,
        ),
    decreases b.len(),
{
    if b.len() == 0 {
        assert(a + b =~= a);
        assert(bundle_files(a, filter) + bundle_files(b, filter) =~= bundle_files(a, filter));
    } else {
        lemma_bundle_files(a, b.drop_last(), filter);
        assert((a + b).drop_last() =~= a + b.drop_last());
        assert((a + b).last() == b.last());
        assert(bundle_files(a + b, filter) =~= bundle_files(a, filter) + bundle_files(b, filter));
    }
}

/// Every file of an archive is handed out, byte for byte and in order: those of
/// two archives one behind the other are those of the first and those of the
/// second; an entry gives its file where it is a regular one with a path that
/// does not leave the directory, and names a figure where figures are asked for.
pub proof fn law_every_file_is_handed_out(
    a: Seq<TarModel>,
    b: Seq<TarModel>,
    filter: BundleFilter,
    path: Seq<char>,
    data: Seq<u8>,
)
    ensures
        bundle_files(a + b, filter) == bundle_files(a, filter) + bundle_files(b, filter),
        unreadable_count(a + b, filter) == unreadable_count(a, filter) + unreadable_count(
            b,
            filter,
        ),
        paths::sanitized(path) matches Some(safe) ==> {
            let e = TarModel::Entry { is_file: true, path, data: Some(data) };
            &&& bundle_files(seq![e], BundleFilter::All) == seq![(safe, data)]
            &&& figure_path(safe) ==> bundle_files(seq![e], BundleFilter::FiguresOnly) == seq![
                (safe, data),
            ]
            &&& !figure_path(safe) ==> bundle_files(
                seq![e],
                BundleFilter::FiguresOnly,
            ).len() == 0
        },
        paths::sanitized(path) is None ==> bundle_files(
            seq![TarModel::Entry { is_file: true, path, data: Some(data) }],
            filter,
        ).len() == 0,
        bundle_files(
            seq![TarModel::Entry { is_file: false, path, data: Some(data) }],
            filter,
        ).len() == 0,
        unreadable_count(seq![TarModel::Broken], filter) == 1,
        unreadable_count(
            seq![TarModel::Entry { is_file: true, path, data: Some(data) }],
            filter,
        ) == 0,
        paths::sanitized(path) is Some ==> unreadable_count(
            seq![TarModel::Entry { is_file: true, path, data: None }],
            BundleFilter::All,
        ) == 1,
{
    lemma_bundle_files(a, b, filter);
    let none = Seq::<TarModel>::empty();
    let e = TarModel::Entry { is_file: true, path, data: Some(data) };
    let dir = TarModel::Entry { is_file: false, path, data: Some(data) };
    let bad = TarModel::Entry { is_file: true, path, data: None };
    assert(seq![e].drop_last() =~= none && seq![e].last() == e);
    assert(seq![dir].drop_last() =~= none && seq![dir].last() == dir);
    assert(seq![bad].drop_last() =~= none && seq![bad].last() == bad);
    assert(seq![TarModel::Broken].drop_last() =~= none && seq![TarModel::Broken].last()
        == TarModel::Broken);
    assert(bundle_files(none, BundleFilter::All) =~= Seq::<(Seq<char>, Seq<u8>)>::empty());
    assert(bundle_files(none, BundleFilter::FiguresOnly) =~= Seq::<(Seq<char>, Seq<u8>)>::empty());
    assert(unreadable_count(none, filter) == 0);
    assert(unreadable_count(none, BundleFilter::All) == 0);
    match paths::sanitized(path) {
        Some(safe) => {
            assert(bundle_files(seq![e], BundleFilter::All) =~= seq![(safe, data)]);
            if figure_path(safe) {
                assert(bundle_files(seq![e], BundleFilter::FiguresOnly) =~= seq![(safe, data)]);
            }
        },
        None => {},
    }
}

/// A figure is a file with one of eight extensions, in any case.
pub proof fn law_figures_are_known_by_their_extension(
    dir: Seq<char>,
    stem: Seq<char>,
    ext: Seq<char>,
)
    requires
        stem.len() > 0,
        !stem.contains('/'),
        !ext.contains('/'),
        !ext.contains('.'),
    ensures
        figure_path(dir.push('/') + (stem.push('.') + ext)) <==> seq![
            "pdf"@,
            "eps"@,
            "ps"@,
            "png"@,
            "jpg"@,
            "jpeg"@,
            "gif"@,
            "svg"@,
        ].contains(text::lower(ext)),
{
    paths::law_extensions_follow_the_last_dot(dir, stem, ext);
    let s = seq!["pdf"@, "eps"@, "ps"@, "png"@, "jpg"@, "jpeg"@, "gif"@, "svg"@];
    let low = text::lower(ext);
    assert(s[0] == "pdf"@ && s[1] == "eps"@ && s[2] == "ps"@ && s[3] == "png"@);
    assert(s[4] == "jpg"@ && s[5] == "jpeg"@ && s[6] == "gif"@ && s[7] == "svg"@);
    if s.contains(low) {
        let i = choose|i: int| 0 <= i < s.len() && s[i] == low;
        assert(i == 0 || i == 1 || i == 2 || i == 3 || i == 4 || i == 5 || i == 6 || i == 7);
    }
}

/// A bundle comes from a packed archive of no more than five hundred million
/// bytes; what was read of it is what becomes of it, and everything else has no
/// files.
pub proof fn law_bundles_come_from_packed_archives(
    data: Seq<u8>,
    filter: BundleFilter,
    unpacked: Seq<u8>,
)
    ensures
        data.len() > 0 && data[0] == 0x25 && data.len() >= 5 && data.take(5) == seq![
            0x25u8,
            0x50u8,
            0x44u8,
            0x46u8,
            0x2Du8,
        ] ==> bundle_of_body(data, filter) is Unavailable,
        data.len() < 2 || data[0] != 0x1F || data[1] != 0x8B ==> bundle_of_body(
            data,
            filter,
        ) is Unavailable,
        data.len() >= 2 && data[0] == 0x1F && data[1] == 0x8B && gunzipped(data, 500_000_001)
            == Ok::<Seq<u8>, Seq<char>>(unpacked) ==> {
            let tar = unpacked.len() > 262 && unpacked.subrange(257, 262) == seq![
                0x75u8,
                0x73u8,
                0x74u8,
                0x61u8,
                0x72u8,
            ];
            &&& unpacked.len() > 500_000_000 ==> bundle_of_body(data, filter) is Schema
            &&& unpacked.len() <= 500_000_000 && !tar ==> bundle_of_body(
                data,
                filter,
            ) is Unavailable
            &&& unpacked.len() <= 500_000_000 && tar ==> (tar_listing(unpacked) matches Ok(l)
                ==> {
                let entries = bundle_entries(unpacked, l, filter);
                let files = bundle_files(entries, filter);
                &&& files.len() > 0 ==> bundle_of_body(data, filter) == BundleOutcome::Files(files)
                &&& files.len() == 0 && unreadable_count(entries, filter) == 0
                    ==> bundle_of_body(data, filter) is Unavailable
                &&& files.len() == 0 && unreadable_count(entries, filter) > 0 ==> bundle_of_body(
                    data,
                    filter,
                ) is Schema
            })
        },
{
    if data.len() > 0 {
        let magic = seq![0x25u8, 0x50u8, 0x44u8, 0x46u8, 0x2Du8];
        if magic.is_prefix_of(data) {
            assert(data.subrange(0, 5)[0] == 0x25);
            assert(data[0] == 0x25);
        }
    }
}

/// The cache of a submission lies below the root, under the key of its
/// identifier; its source is served below `/src/`, under its identifier.
pub proof fn law_submissions_have_their_places(root: Seq<char>, id: Seq<char>)
    requires
        root.len() > 0,
        root.last() != '/',
    ensures
        cache_path(root, id) == root + "/tex-src/"@ + (safekey::key_of_text("arxiv_"@ + id)
            + ".json"@),
        src_path(id) == "/src/"@ + id,
{
    reveal_strlit("/");
    reveal_strlit("tex-src");
    reveal_strlit("/tex-src/");
    let key = safekey::key_of_text("arxiv_"@ + id);
    safekey::law_keys_tell_kind_and_text(id);
    paths::law_children_lie_below_their_directory(root, "tex-src"@);
    let dir = root + "/"@ + "tex-src"@;
    assert(dir.last() == 'c');
    paths::law_children_lie_below_their_directory(dir, key + ".json"@);
    assert("/"@ + "tex-src"@ + "/"@ =~= "/tex-src/"@);
    assert(dir + "/"@ + (key + ".json"@) =~= root + "/tex-src/"@ + (key + ".json"@));
}

/// An archive is read where it matters: every entry that is named like a LaTeX
/// file is read for its text, and every file that is asked for is read for its
/// bytes, each at its own place in the archive.
pub proof fn law_what_is_asked_for_is_read(
    data: Seq<u8>,
    heads: Seq<Option<(bool, Seq<u8>)>>,
    filter: BundleFilter,
    is_file: bool,
    name: Seq<u8>,
    i: int,
)
    requires
        tar_heads(data) == Ok::<Seq<Option<(bool, Seq<u8>)>>, Seq<char>>(heads),
        0 <= i < heads.len(),
        heads[i] == Some((is_file, name)),
    ensures
        tar_listing(data) matches Ok(listing) && {
            let path = bytes::utf8_lossy(name);
            let whole = TarModel::Entry { is_file, path, data: tar_content(data, i) };
            &&& tex_of_tar(data) == tex_of_entries(tex_entries(data, listing))
            &&& tex_entries(data, listing).len() == heads.len()
            &&& bundle_entries(data, listing, filter).len() == heads.len()
            &&& ".tex"@.is_suffix_of(path) ==> tex_entries(data, listing)[i] == whole
            &&& is_file ==> (paths::sanitized(path) matches Some(safe) ==> (filter
                == BundleFilter::All || figure_path(safe) ==> bundle_entries(
                data,
                listing,
                filter,
            )[i] == whole))
        },
{
    let listing = entries_listed(heads);
    law_entries_have_their_own_content(data, heads, |e: TarModel| tex_named(e), i);
    law_entries_have_their_own_content(
        data,
        heads,
        |e: TarModel| entry_target(e, filter) is Some,
        i,
    );
    assert(listing[i] == entry_listed(heads[i]));
}

/// What could not be unpacked or listed is told, with the reason.
pub proof fn law_broken_submissions_are_told(data: Seq<u8>, filter: BundleFilter, why: Seq<char>)
    requires
        data.len() >= 2 && data[0] == 0x1F && data[1] == 0x8B,
    ensures
        gunzipped(data, 500_000_001) == Err::<Seq<u8>, Seq<char>>(why) ==> bundle_of_body(
            data,
            filter,
        ) == BundleOutcome::Schema("gzip decompress of arXiv src failed: "@ + why),
        forall|unpacked: Seq<u8>|
            gunzipped(data, 500_000_001) == Ok::<Seq<u8>, Seq<char>>(unpacked) && unpacked.len()
                <= 500_000_000 && #[trigger] is_tar(unpacked) && tar_heads(unpacked) == Err::<
                Seq<Option<(bool, Seq<u8>)>>,
                Seq<char>,
            >(why) ==> bundle_of_body(data, filter) == BundleOutcome::Schema(
                "tar read failed: "@ + why,
            ) && tex_of_tar(unpacked) == TexOutcome::Schema("tar read failed: "@ + why),
{
    let magic = seq![0x25u8, 0x50u8, 0x44u8, 0x46u8, 0x2Du8];
    if magic.is_prefix_of(data) {
        assert(data.subrange(0, 5)[0] == 0x25);
        assert(data[0] == 0x25);
    }
}

} // verus!
