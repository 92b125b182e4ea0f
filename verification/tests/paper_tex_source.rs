use doiget_core::paper_tex_source::{
    apply_max_chars, cache_file, cache_read_at, cache_write_at, extract_bundle, extract_tex,
    is_figure, listing_of_heads, read_tex_source, resolve_arxiv_src_base, src_url, BundleFilter,
    PaperTexSource, TarEntry, TEX_SRC_CACHE_TTL_DAYS,
};
use doiget_core::paths::sanitize_entry_path;
use doiget_core::source::FetchError;
use doiget_core::urls::WebUrl;
use doiget_core::{ArxivId, Ref};
use flate2::write::GzEncoder;
use flate2::Compression;
use std::io::Write as _;

fn make_id(s: &str) -> ArxivId {
    match Ref::parse(s).expect("parse") {
        Ref::Arxiv(a) => a,
        _ => panic!("expected arxiv id"),
    }
}

fn gzip_bytes(data: &[u8]) -> Vec<u8> {
    let mut enc = GzEncoder::new(Vec::new(), Compression::default());
    enc.write_all(data).expect("gzip write");
    enc.finish().expect("gzip finish")
}

fn tar_gzip(files: &[(&str, &[u8])]) -> Vec<u8> {
    let mut builder = tar::Builder::new(Vec::new());
    for (name, data) in files {
        let mut header = tar::Header::new_gnu();
        let field = &mut header.as_old_mut().name;
        field[..name.len()].copy_from_slice(name.as_bytes());
        header.set_size(data.len() as u64);
        header.set_mode(0o644);
        header.set_cksum();
        builder
            .append(&header, std::io::Cursor::new(data))
            .expect("tar append");
    }
    gzip_bytes(&builder.into_inner().expect("tar finish"))
}

fn make_src(id: &ArxivId) -> PaperTexSource {
    PaperTexSource {
        arxiv_id: id.as_str().to_string(),
        main_file: Some("main.tex".into()),
        tex_source: "\\documentclass{article}".into(),
        char_count: 23,
        truncated: false,
        retrieved_from: "https://export.arxiv.org/src/2401.12345".into(),
    }
}

#[test]
fn apply_max_chars_no_cap_is_identity() {
    let id = make_id("2401.12345");
    let src = make_src(&id);
    let out = apply_max_chars(src.clone(), None);
    assert_eq!(out, src);
}

#[test]
fn apply_max_chars_truncates() {
    let id = make_id("2401.12345");
    let src = PaperTexSource {
        arxiv_id: id.as_str().to_string(),
        main_file: None,
        tex_source: "abcdefghij".into(),
        char_count: 10,
        truncated: false,
        retrieved_from: "https://export.arxiv.org/src/2401.12345".into(),
    };
    let out = apply_max_chars(src, Some(4));
    assert_eq!(out.tex_source, "abcd");
    assert_eq!(out.char_count, 4);
    assert!(out.truncated);
}

#[test]
fn pdf_only_yields_text_unavailable() {
    let id = make_id("2401.12345");
    let result = extract_tex(&id, b"%PDF-1.4 fake");
    assert!(matches!(result, Err(FetchError::TextUnavailable { .. })));
}

#[test]
fn raw_tex_passthrough() {
    let id = make_id("2401.12345");
    let tex = b"\\documentclass{article}\n\\begin{document}\nHello.\\end{document}";
    let ext = extract_tex(&id, tex).expect("extract");
    assert!(ext.main_file.is_none());
    assert!(ext.content.contains("\\documentclass"));
}

#[test]
fn gzip_single_file_extracted() {
    let id = make_id("2401.12345");
    let tex = b"\\documentclass{article}\n\\begin{document}Hello\\end{document}";
    let gz = gzip_bytes(tex);
    let ext = extract_tex(&id, &gz).expect("extract");
    assert!(ext.main_file.is_none(), "single gzip has no tar filename");
    assert!(ext.content.contains("\\documentclass"));
}

#[test]
fn tar_selects_documentclass_file_over_plain() {
    let id = make_id("2401.12345");
    let payload = tar_gzip(&[
        ("paper.tex", b"\\documentclass{article} main content"),
        ("macros.tex", b"\\newcommand{\\foo}{bar}"),
    ]);
    let ext = extract_tex(&id, &payload).expect("extract");
    assert_eq!(ext.main_file.as_deref(), Some("paper.tex"));
    assert!(ext.content.contains("\\documentclass"));
}

#[test]
fn tar_prefers_main_tex_among_documentclass_files() {
    let id = make_id("2401.12345");
    let payload = tar_gzip(&[
        ("other.tex", b"\\documentclass{article} other content here"),
        ("main.tex", b"\\documentclass{article} main"),
    ]);
    let ext = extract_tex(&id, &payload).expect("extract");
    assert_eq!(
        ext.main_file.as_deref(),
        Some("main.tex"),
        "main.tex bonus must override smaller-but-also-documentclass other.tex"
    );
}

#[test]
fn tar_falls_back_to_largest_file_when_no_documentclass() {
    let id = make_id("2401.12345");
    let short = b"\\section{Short}".as_slice();
    let mut long_content = b"\\section{Long} ".to_vec();
    long_content.extend(vec![b'x'; 500]);
    let payload = tar_gzip(&[("short.tex", short), ("long.tex", &long_content)]);
    let ext = extract_tex(&id, &payload).expect("extract");
    assert_eq!(ext.main_file.as_deref(), Some("long.tex"));
}

#[test]
fn tar_with_no_tex_files_is_text_unavailable() {
    let id = make_id("2401.12345");
    let payload = tar_gzip(&[("README.md", b"# Paper"), ("figure.eps", b"%!PS")]);
    let err = extract_tex(&id, &payload).expect_err("should fail");
    assert!(matches!(err, FetchError::TextUnavailable { .. }));
}

#[test]
fn sanitize_accepts_normal_relative_paths() {
    assert_eq!(
        sanitize_entry_path("main.tex").map(|p| p.as_str().replace('\\', "/")),
        Some("main.tex".to_string())
    );
    assert_eq!(
        sanitize_entry_path("figs/diagram.png").map(|p| p.as_str().replace('\\', "/")),
        Some("figs/diagram.png".to_string())
    );
    assert_eq!(
        sanitize_entry_path("./a//b.tex").map(|p| p.as_str().replace('\\', "/")),
        Some("a/b.tex".to_string())
    );
}

#[test]
fn sanitize_rejects_parent_traversal() {
    assert_eq!(sanitize_entry_path("../evil.tex"), None);
    assert_eq!(sanitize_entry_path("a/../../etc/passwd"), None);
    assert_eq!(sanitize_entry_path("sub/../x"), None);
}

#[test]
fn sanitize_rejects_absolute_and_anchored() {
    assert_eq!(sanitize_entry_path("/etc/passwd"), None);
    assert_eq!(sanitize_entry_path("\\windows\\system32"), None);
    assert_eq!(sanitize_entry_path("C:\\Windows\\evil"), None);
    assert_eq!(sanitize_entry_path("C:/Windows/evil"), None);
}

#[test]
fn sanitize_rejects_backslash_traversal_cross_platform() {
    assert_eq!(sanitize_entry_path("..\\..\\evil"), None);
    assert_eq!(sanitize_entry_path("a\\..\\..\\b"), None);
}

#[test]
fn sanitize_rejects_empty_nul_dot_and_colon() {
    assert_eq!(sanitize_entry_path(""), None);
    assert_eq!(sanitize_entry_path("a/\0/b"), None);
    assert_eq!(sanitize_entry_path("."), None); // no normal component
    assert_eq!(sanitize_entry_path("a:b/c"), None); // colon in a segment
    assert_eq!(sanitize_entry_path("foo/../../bar"), None); // mid-path escape
    assert_eq!(sanitize_entry_path("./.."), None); // leading dot then traversal
    assert_eq!(sanitize_entry_path("///"), None); // only separators
    assert_eq!(sanitize_entry_path("\\\\"), None); // only backslashes
    assert_eq!(sanitize_entry_path("C:evil"), None); // bare drive prefix
}

#[test]
fn extract_bundle_all_returns_every_regular_file() {
    let id = make_id("2401.12345");
    let payload = tar_gzip(&[
        ("paper.tex", b"\\documentclass{article}"),
        ("refs.bib", b"@article{x,title={t}}"),
        ("figs/plot.png", b"\x89PNG\r\n"),
    ]);
    let files = extract_bundle(&id, &payload, BundleFilter::All).expect("bundle");
    let mut names: Vec<String> = files.iter().map(|f| f.path().replace('\\', "/")).collect();
    names.sort();
    assert_eq!(names, vec!["figs/plot.png", "paper.tex", "refs.bib"]);
    assert!(files
        .iter()
        .all(|f| !f.path().starts_with('/') && !f.path().contains("..")));
}

#[test]
fn extract_bundle_figures_only_keeps_images() {
    let id = make_id("2401.12345");
    let payload = tar_gzip(&[
        ("paper.tex", b"\\documentclass{article}"),
        ("refs.bib", b"@article{x}"),
        ("figs/plot.png", b"\x89PNG"),
        ("diagram.eps", b"%!PS"),
    ]);
    let files = extract_bundle(&id, &payload, BundleFilter::FiguresOnly).expect("figs");
    let mut names: Vec<String> = files.iter().map(|f| f.path().replace('\\', "/")).collect();
    names.sort();
    assert_eq!(names, vec!["diagram.eps", "figs/plot.png"]);
}

#[test]
fn extract_bundle_pdf_only_is_source_unavailable() {
    let id = make_id("2401.12345");
    let err = extract_bundle(&id, b"%PDF-1.5 x", BundleFilter::All).expect_err("pdf-only");
    assert!(matches!(err, FetchError::SourceUnavailable { .. }));
}

#[test]
fn extract_bundle_bare_file_is_source_unavailable() {
    let id = make_id("2401.12345");
    let err = extract_bundle(&id, b"\\documentclass{article}\nhi", BundleFilter::All)
        .expect_err("bare file is not a bundle");
    assert!(matches!(err, FetchError::SourceUnavailable { .. }));
}

#[test]
fn extract_bundle_figures_only_none_present_is_source_unavailable() {
    let id = make_id("2401.12345");
    let payload = tar_gzip(&[("paper.tex", b"\\documentclass{article}")]);
    let err =
        extract_bundle(&id, &payload, BundleFilter::FiguresOnly).expect_err("no figures");
    assert!(matches!(err, FetchError::SourceUnavailable { .. }));
}

#[test]
fn extract_bundle_rejects_traversal_entry_but_keeps_safe() {
    let id = make_id("2401.12345");
    let payload = tar_gzip(&[
        ("../evil.tex", b"evil"),
        ("safe.tex", b"\\documentclass{article}"),
    ]);
    let files = extract_bundle(&id, &payload, BundleFilter::All).expect("bundle");
    let names: Vec<String> = files
        .iter()
        .map(|f| f.path().replace('\\', "/"))
        .collect();
    assert!(
        names.iter().all(|n| !n.contains("..")),
        "traversal entry must be rejected; got {names:?}"
    );
    assert!(
        names.iter().any(|n| n == "safe.tex"),
        "benign sibling must survive; got {names:?}"
    );
}

#[test]
fn resolve_base_defaults_to_production() {
    let u = resolve_arxiv_src_base(None).expect("resolve");
    assert_eq!(u.href(), "https://export.arxiv.org/");
    let o = resolve_arxiv_src_base(Some("http://127.0.0.1:1")).expect("resolve");
    assert_eq!(o.href(), "http://127.0.0.1:1/");
    assert!(resolve_arxiv_src_base(Some("not a url")).is_err());
    let id = make_id("2401.12345");
    assert_eq!(src_url(&u, &id).expect("url").href(), "https://export.arxiv.org/src/2401.12345");
}

const DAY: i64 = 86_400;

fn fetched() -> (&'static str, i64) {
    ("2024-03-15T00:00:00+00:00", 1_710_460_800)
}

#[test]
fn cache_round_trip() {
    let id = make_id("2401.12345");
    let src = make_src(&id);
    let (at, secs) = fetched();
    let entry = cache_write_at(src.clone(), at);
    let read = cache_read_at(entry, secs, 0).expect("cache hit");
    assert_eq!(read, src);
}

#[test]
fn cache_expired_returns_none() {
    let id = make_id("2401.12345");
    let (at, secs) = fetched();
    let later = secs + DAY * (TEX_SRC_CACHE_TTL_DAYS + 1);
    assert!(cache_read_at(cache_write_at(make_src(&id), at), later, 0).is_none());
    let edge = secs + DAY * TEX_SRC_CACHE_TTL_DAYS;
    assert!(cache_read_at(cache_write_at(make_src(&id), at), edge - 1, 0).is_some());
    assert!(cache_read_at(cache_write_at(make_src(&id), at), edge + 1, 0).is_none());
}

#[test]
fn cache_schema_version_mismatch_returns_none() {
    let id = make_id("2401.12345");
    let (at, secs) = fetched();
    let mut bad = cache_write_at(make_src(&id), at);
    bad.schema_version = "0.9".to_string();
    assert!(
        cache_read_at(bad, secs, 0).is_none(),
        "stale schema version must be rejected"
    );
    let mut odd = cache_write_at(make_src(&id), at);
    odd.fetched_at = "yesterday".to_string();
    assert!(cache_read_at(odd, secs, 0).is_none());
}

#[test]
fn cache_files_lie_below_the_root() {
    let id = make_id("cond-mat/9501001");
    assert_eq!(
        cache_file("/c", &id),
        "/c/tex-src/arxiv_cond-mat_9501001.json"
    );
}

#[test]
fn is_figure_matches_allowlist_case_insensitively() {
    for f in ["fig.png", "a/b.EPS", "plot.Pdf", "x.svg", "y.JPEG"] {
        assert!(is_figure(f), "{f} should be a figure");
    }
    for nf in ["main.tex", "refs.bib", "macros.sty", "README"] {
        assert!(!is_figure(nf), "{nf} should NOT be a figure");
    }
}

#[test]
fn downloads_become_sources() {
    let id = make_id("2401.12345");
    let url = WebUrl::parse("https://export.arxiv.org/src/2401.12345v1").expect("url");
    let src = read_tex_source(&id, "\\section{é}".as_bytes(), &url).expect("a plain file");
    assert_eq!(src.arxiv_id, "2401.12345");
    assert_eq!(src.main_file, None);
    assert_eq!(src.char_count, 11);
    assert!(!src.truncated);
    assert_eq!(src.retrieved_from, "https://export.arxiv.org/src/2401.12345v1");
    assert!(matches!(
        read_tex_source(&id, b"%PDF-1.5", &url),
        Err(FetchError::TextUnavailable { arxiv_id }) if arxiv_id == id
    ));
}

#[test]
fn broken_archives_are_told_from_missing_sources() {
    let id = make_id("2401.12345");
    assert!(matches!(
        extract_tex(&id, b"\x1f\x8bnot gzip"),
        Err(FetchError::SourceSchema { hint }) if hint.starts_with("gzip decompress of arXiv src failed: ")
    ));
    let odd = tar_gzip(&[("a.tex", b"\xff\xfe"), ("b.tex", b"  \n")]);
    assert!(matches!(
        extract_tex(&id, &odd),
        Err(FetchError::SourceSchema { hint }) if hint == "tar contained 2 .tex entries but all failed to read"
    ));
}

#[test]
fn main_tex_wins_ties_up_to_a_size() {
    let id = make_id("2401.12345");
    let class = "\\documentclass{a}";
    let small = format!("{class}{}", " ".repeat(100));
    let large = format!("{class}{}", "x".repeat(100_100));
    let won = extract_tex(&id, &tar_gzip(&[("b/main.tex", class.as_bytes()), ("z.tex", small.as_bytes())]))
        .expect("source");
    assert_eq!(won.main_file.as_deref(), Some("b/main.tex"));
    let lost = extract_tex(&id, &tar_gzip(&[("b/main.tex", class.as_bytes()), ("z.tex", large.as_bytes())]))
        .expect("source");
    assert_eq!(lost.main_file.as_deref(), Some("z.tex"));
}

#[test]
fn content_that_is_not_wanted_is_not_read() {
    let mut builder = tar::Builder::new(Vec::new());
    let mut sparse = tar::Header::new_gnu();
    sparse.as_old_mut().name[..8].copy_from_slice(b"huge.dat");
    sparse.set_entry_type(tar::EntryType::GNUSparse);
    sparse.set_size(0);
    sparse.set_mode(0o644);
    let gnu = sparse.as_gnu_mut().expect("a GNU header");
    gnu.set_real_size(1 << 50);
    gnu.sparse[0].set_offset(1 << 50);
    gnu.sparse[0].set_length(0);
    sparse.set_cksum();
    builder.append(&sparse, std::io::empty()).expect("tar append");
    for (name, data) in [("fig.png", "png"), ("main.tex", "\\documentclass{article}"), ("b.eps", "eps")] {
        let mut header = tar::Header::new_gnu();
        header.set_size(data.len() as u64);
        header.set_mode(0o644);
        builder.append_data(&mut header, name, data.as_bytes()).expect("tar append");
    }
    let body = gzip_bytes(&builder.into_inner().expect("tar finish"));
    let id = make_id("2401.12345");
    let tex = extract_tex(&id, &body).expect("LaTeX");
    assert_eq!(tex.main_file.as_deref(), Some("main.tex"));
    assert_eq!(tex.content, "\\documentclass{article}");
    let all = extract_bundle(&id, &body, BundleFilter::All).expect("files");
    let files: Vec<(&str, &[u8])> = all.iter().map(|f| (f.path(), f.bytes().as_slice())).collect();
    assert_eq!(
        files,
        vec![
            ("fig.png", b"png".as_slice()),
            ("main.tex", b"\\documentclass{article}".as_slice()),
            ("b.eps", b"eps".as_slice()),
        ]
    );
    let figures = extract_bundle(&id, &body, BundleFilter::FiguresOnly).expect("figures");
    let files: Vec<(&str, &[u8])> =
        figures.iter().map(|f| (f.path(), f.bytes().as_slice())).collect();
    assert_eq!(files, vec![("fig.png", b"png".as_slice()), ("b.eps", b"eps".as_slice())]);
}

#[test]
fn paths_that_are_no_text_are_read_with_replacements() {
    let mut builder = tar::Builder::new(Vec::new());
    let body: &[u8] = b"\\documentclass{article}";
    let name = b"m\xFFin.tex";
    let mut header = tar::Header::new_gnu();
    header.as_old_mut().name[..name.len()].copy_from_slice(name);
    header.set_size(body.len() as u64);
    header.set_mode(0o644);
    header.set_cksum();
    builder.append(&header, body).expect("tar append");
    let packed = gzip_bytes(&builder.into_inner().expect("tar finish"));
    let id = make_id("2401.12345");
    let tex = extract_tex(&id, &packed).expect("extract");
    assert_eq!(tex.main_file.as_deref(), Some("m\u{FFFD}in.tex"));
    let files = extract_bundle(&id, &packed, BundleFilter::All).expect("bundle");
    assert_eq!(files.len(), 1);
    assert_eq!(files[0].path(), "m\u{FFFD}in.tex");
    assert_eq!(files[0].bytes(), body);
}

#[test]
fn heads_become_entries_without_content() {
    let heads = vec![None, Some((true, b"a/b.tex".to_vec())), Some((false, vec![0xC3, 0xA9, 0xFF]))];
    assert_eq!(
        listing_of_heads(&heads),
        vec![
            TarEntry::Broken,
            TarEntry::Entry { is_file: true, path: "a/b.tex".to_string(), data: None },
            TarEntry::Entry { is_file: false, path: "\u{E9}\u{FFFD}".to_string(), data: None },
        ]
    );
}
