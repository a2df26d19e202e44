use cafe_core::narration::archive::{parse_epub, EpubError};
use cafe_core::narration::container::opens_safely;
use cafe_core::narration::archive::toc_entries;
use cafe_core::narration::book::{assemble_book, fallback_title, html_to_text, is_html, normalize_text, strip_fragment, Book, Chapter};
use cafe_core::narration::commands::{parse, Command};
use cafe_core::narration::narrator::SessionState;

#[test]
fn parses_load() {
    assert_eq!(parse("!load /books/moby.epub"), Some(Command::Load("/books/moby.epub".to_string())));
    assert_eq!(parse("!load"), None);
}

#[test]
fn parses_next_prev() {
    assert_eq!(parse("!next"), Some(Command::Next));
    assert_eq!(parse("!n"), Some(Command::Next));
    assert_eq!(parse("!prev"), Some(Command::Prev));
    assert_eq!(parse("!p"), Some(Command::Prev));
}

#[test]
fn parses_chapter() {
    assert_eq!(parse("!chapter 7"), Some(Command::Chapter(7)));
    assert_eq!(parse("!ch 12"), Some(Command::Chapter(12)));
    assert_eq!(parse("!chapter abc"), None);
    assert_eq!(parse("!chapter"), None);
}

#[test]
fn parses_list_current_help() {
    assert_eq!(parse("!list"), Some(Command::List));
    assert_eq!(parse("!l"), Some(Command::List));
    assert_eq!(parse("!current"), Some(Command::Current));
    assert_eq!(parse("!c"), Some(Command::Current));
    assert_eq!(parse("!help"), Some(Command::Help));
    assert_eq!(parse("!h"), Some(Command::Help));
}

#[test]
fn rejects_non_commands() {
    assert_eq!(parse("hello"), None);
    assert_eq!(parse("!unknown"), None);
    assert_eq!(parse(""), None);
}

#[test]
fn case_insensitive() {
    assert_eq!(parse("!NEXT"), Some(Command::Next));
    assert_eq!(parse("!LIST"), Some(Command::List));
}

#[test]
fn normalize_collapses_blank_runs() {
    let input = "\n  Hello world  \n\n\n  \nSecond paragraph.\n\n\n";
    let out = normalize_text(input);
    assert_eq!(out, "Hello world\n\nSecond paragraph.");
}

#[test]
fn normalize_strips_outer_whitespace() {
    let out = normalize_text("   \n\n  text  \n  \n");
    assert_eq!(out, "text");
}

#[test]
fn html_to_text_strips_tags_and_decodes_entities() {
    let html = "<html><body><h1>Title</h1><p>Hello &amp; goodbye</p><br><p>Next</p></body></html>";
    let text = html_to_text(html);
    assert!(text.contains("Hello & goodbye"), "got: {text}");
    assert!(text.contains("Next"), "got: {text}");
}

#[test]
fn fallback_title_uses_heading() {
    assert_eq!(fallback_title(0, "The Long Way Home\n\nBody text"), "The Long Way Home");
}

#[test]
fn fallback_title_counts_chapters() {
    assert_eq!(fallback_title(3, ""), "Chapter 4");
}

#[test]
fn fallback_title_rejects_oversized_heading() {
    let long = "x".repeat(200);
    assert_eq!(fallback_title(1, &long), "Chapter 2");
}

#[test]
fn is_html_detects_mimes() {
    assert!(is_html("<html>", "application/xhtml+xml"));
    assert!(is_html("", "text/html"));
    assert!(!is_html("", "image/png"));
    assert!(is_html("<p>hi</p>", "application/octet-stream"));
}

fn book(n: usize) -> Book {
    Book {
        title: "Test".into(),
        creator: None,
        chapters: (0..n)
            .map(|i| Chapter { title: format!("Chapter {}", i + 1), text: format!("text {}", i + 1) })
            .collect(),
    }
}

fn loaded(n: usize) -> SessionState {
    let mut s = SessionState::new();
    s.book = Some(book(n));
    s
}

#[test]
fn next_moves_forward() {
    let mut s = loaded(3);
    assert_eq!(s.next(), Some(0));
    assert_eq!(s.next(), Some(1));
    assert_eq!(s.next(), Some(2));
    assert_eq!(s.next(), None);
}

#[test]
fn prev_clamps_at_zero() {
    let mut s = loaded(3);
    s.next();
    assert_eq!(s.prev(), None);
    s.current = 2;
    s.started = true;
    assert_eq!(s.prev(), Some(1));
}

#[test]
fn first_next_reads_chapter_one() {
    let mut s = loaded(3);
    assert_eq!(s.next(), Some(0));
    let title = s.current_chapter().map(|c| c.title.clone());
    assert_eq!(title.as_deref(), Some("Chapter 1"));
}

#[test]
fn goto_is_one_based() {
    let mut s = loaded(5);
    assert_eq!(s.goto(3), Some(2));
    assert_eq!(s.goto(0), None);
    assert_eq!(s.goto(6), None);
}

#[test]
fn current_chapter_reflects_position() {
    let mut s = loaded(3);
    s.current = 1;
    s.started = true;
    let title = s.current_chapter().map(|c| c.title.clone());
    assert_eq!(title.as_deref(), Some("Chapter 2"));
}

#[test]
fn sessions_are_isolated() {
    let mut s1 = loaded(2);
    let s2 = loaded(9);
    assert_eq!(s1.next(), Some(0));
    assert_eq!(s1.next(), Some(1));
    assert_eq!(s1.next(), None);
    assert_eq!(s2.current, 0);
}

#[test]
fn assemble_book_titles_from_toc_then_heading() {
    let spine = vec![
        Some(("<p>Opening line</p>".to_string(), "text/html".to_string())),
        Some(("plain".to_string(), "text/plain".to_string())),
        None,
    ];
    let toc = vec![(0usize, "Prologue".to_string())];
    let b = assemble_book(None, Some("Anon".into()), &spine, &toc);
    assert_eq!(b.title, "Untitled");
    assert_eq!(b.chapter_count(), 3);
    assert_eq!(b.chapters[0].title, "Prologue");
    assert_eq!(b.chapters[1].title, "Chapter 2");
    assert_eq!(b.chapters[1].text, "");
    assert_eq!(b.chapters[2].title, "Chapter 3");
}

#[test]
fn strip_fragment_keeps_resource() {
    assert_eq!(strip_fragment("chapter.xhtml#sec-1"), "chapter.xhtml");
    assert_eq!(strip_fragment("chapter.xhtml"), "chapter.xhtml");
    assert_eq!(strip_fragment("#top"), "");
}

use cafe_core::narration::replies::{
    chapter_display, chapter_list, current_text, load_summary, Move, MoveError, HELP_TEXT, NO_BOOK,
};

#[test]
fn moves_report_their_refusals() {
    let mut empty = SessionState::new();
    assert_eq!(empty.apply_move(Move::Next), Err(MoveError::NoBook));
    assert_eq!(MoveError::NoBook.message(), NO_BOOK);
    let mut s = loaded(2);
    assert_eq!(s.apply_move(Move::Prev), Err(MoveError::AtFirst));
    assert_eq!(s.apply_move(Move::Next), Ok(0));
    assert_eq!(s.apply_move(Move::Next), Ok(1));
    assert_eq!(s.apply_move(Move::Next), Err(MoveError::AtLast));
    assert_eq!(s.apply_move(Move::Chapter(5)), Err(MoveError::OutOfRange(5, 2)));
    assert_eq!(MoveError::OutOfRange(5, 2).message(), "Chapter 5 is out of range (1-2).");
    assert_eq!(s.apply_move(Move::Chapter(1)), Ok(0));
    assert_eq!(s.apply_move(Move::Prev), Err(MoveError::AtFirst));
    assert_eq!(MoveError::AtLast.message(), "Already at the last chapter.");
}

#[test]
fn reply_texts() {
    assert_eq!(chapter_display(0, "Intro", "Once."), "Chapter 1 — Intro\n\nOnce.");
    let mut b = book(12);
    assert_eq!(
        load_summary(&b),
        "Loaded \"Test\". 12 chapters. Say !next to start, !list for the table of contents, or !chapter N to jump."
    );
    b.creator = Some("Ann".into());
    assert!(load_summary(&b).starts_with("Loaded \"Test\" by Ann. 12 chapters."));
    let mut s = loaded(12);
    s.current = 10;
    let list = chapter_list(&s);
    let lines: Vec<&str> = list.lines().collect();
    assert_eq!(lines[0], "\"Test\" — 12 chapters:");
    assert_eq!(lines[1], "    1. Chapter 1");
    assert_eq!(lines[11], "*  11. Chapter 11");
    assert_eq!(lines.len(), 13);
    assert_eq!(chapter_list(&SessionState::new()), NO_BOOK);
    assert_eq!(current_text(&s), "\"Test\" — chapter 11 of 12: Chapter 11");
    assert_eq!(current_text(&SessionState::new()), NO_BOOK);
    assert!(HELP_TEXT.starts_with("EPUB narrator commands:\n!load <path> — load an EPUB\n"));
    assert_eq!(HELP_TEXT.lines().count(), 8);
}

#[test]
fn parse_epub_bytes_refuses_non_archives() {
    let r = parse_epub(b"definitely not a zip archive".to_vec()).unwrap();
    match r {
        Err(EpubError::Open(reason)) => {
            assert!(!reason.is_empty());
            assert_eq!(
                EpubError::Open(reason.clone()).message(),
                format!("failed to open EPUB: {reason}")
            );
        }
        Ok(_) => panic!("garbage parsed as an EPUB"),
    }
}

#[test]
fn toc_entries_resolve_targets_to_spine_positions() {
    let paths = vec![Some("OEBPS/a.xhtml".to_string()), None, Some("OEBPS/b.xhtml".to_string())];
    let toc = vec![
        ("Part B".to_string(), "OEBPS/b.xhtml#sec".to_string()),
        ("Nowhere".to_string(), "OEBPS/missing.xhtml".to_string()),
        ("Part A".to_string(), "OEBPS//a.xhtml".to_string()),
        ("Again A".to_string(), "OEBPS/a.xhtml".to_string()),
    ];
    let got = toc_entries(&paths, &toc);
    assert_eq!(
        got,
        vec![(2, "Part B".to_string()), (0, "Part A".to_string()), (0, "Again A".to_string())]
    );
}

#[test]
fn surrounding_whitespace_does_not_change_commands() {
    assert_eq!(parse(" \t!next \n"), parse("!next"));
    assert_eq!(parse("\n!load  /books/a.epub  \t"), Some(Command::Load("/books/a.epub".to_string())));
}

#[test]
fn normalizing_twice_changes_nothing() {
    for t in [
        "",
        "   \n\n  ",
        "\n  Hello world  \n\n\n  \nSecond paragraph.\n\n\n",
        "a\n b \n\n\n c\r\n d",
        "one line",
    ] {
        let n = normalize_text(t);
        assert_eq!(normalize_text(&n), n);
        assert_eq!(n.trim(), n);
        assert!(!n.contains("\n\n\n"));
        let source: Vec<&str> = t.lines().map(str::trim).filter(|l| !l.is_empty()).collect();
        let kept: Vec<&str> = n.lines().filter(|l| !l.is_empty()).collect();
        assert_eq!(kept, source);
    }
}

fn crc32(data: &[u8]) -> u32 {
    let mut crc: u32 = 0xffff_ffff;
    for &b in data {
        crc ^= b as u32;
        for _ in 0..8 {
            crc = if crc & 1 == 1 { (crc >> 1) ^ 0xedb8_8320 } else { crc >> 1 };
        }
    }
    !crc
}

/// A ZIP archive of `files`, stored without compression.
fn zip_stored(files: &[(&str, &str)]) -> Vec<u8> {
    let mut out = Vec::new();
    let mut central = Vec::new();
    for (name, body) in files {
        let offset = out.len() as u32;
        let crc = crc32(body.as_bytes());
        let size = body.len() as u32;
        let mut header = Vec::new();
        header.extend_from_slice(&[0, 0]);
        header.extend_from_slice(&[0, 0]);
        header.extend_from_slice(&[0, 0, 0, 0]);
        header.extend_from_slice(&crc.to_le_bytes());
        header.extend_from_slice(&size.to_le_bytes());
        header.extend_from_slice(&size.to_le_bytes());
        header.extend_from_slice(&(name.len() as u16).to_le_bytes());
        header.extend_from_slice(&[0, 0]);
        out.extend_from_slice(&0x0403_4b50u32.to_le_bytes());
        out.extend_from_slice(&20u16.to_le_bytes());
        out.extend_from_slice(&header);
        out.extend_from_slice(name.as_bytes());
        out.extend_from_slice(body.as_bytes());
        central.extend_from_slice(&0x0201_4b50u32.to_le_bytes());
        central.extend_from_slice(&20u16.to_le_bytes());
        central.extend_from_slice(&20u16.to_le_bytes());
        central.extend_from_slice(&header);
        central.extend_from_slice(&[0, 0, 0, 0, 0, 0, 0, 0, 0, 0]);
        central.extend_from_slice(&offset.to_le_bytes());
        central.extend_from_slice(name.as_bytes());
    }
    let cd_offset = out.len() as u32;
    let cd_size = central.len() as u32;
    out.extend_from_slice(&central);
    out.extend_from_slice(&0x0605_4b50u32.to_le_bytes());
    out.extend_from_slice(&[0, 0, 0, 0]);
    out.extend_from_slice(&(files.len() as u16).to_le_bytes());
    out.extend_from_slice(&(files.len() as u16).to_le_bytes());
    out.extend_from_slice(&cd_size.to_le_bytes());
    out.extend_from_slice(&cd_offset.to_le_bytes());
    out.extend_from_slice(&[0, 0]);
    out
}

fn container(full_path: &str) -> String {
    format!(
        "<?xml version=\"1.0\"?><container version=\"1.0\" xmlns=\"urn:oasis:names:tc:opendocument:xmlns:container\"><rootfiles><rootfile full-path=\"{full_path}\" media-type=\"application/oebps-package+xml\"/></rootfiles></container>"
    )
}

const OPF: &str = "<?xml version=\"1.0\"?><package xmlns=\"http://www.idpf.org/2007/opf\" version=\"2.0\" unique-identifier=\"id\"><metadata xmlns:dc=\"http://purl.org/dc/elements/1.1/\"><dc:title>Test Book</dc:title><dc:creator>Ann Author</dc:creator><dc:identifier id=\"id\">x</dc:identifier></metadata><manifest><item id=\"ncx\" href=\"toc.ncx\" media-type=\"application/x-dtbncx+xml\"/><item id=\"c1\" href=\"c1.xhtml\" media-type=\"application/xhtml+xml\"/><item id=\"c2\" href=\"c2.xhtml\" media-type=\"application/xhtml+xml\"/></manifest><spine toc=\"ncx\"><itemref idref=\"c1\"/><itemref idref=\"c2\"/></spine></package>";

const NCX: &str = "<?xml version=\"1.0\"?><ncx xmlns=\"http://www.daisy.org/z3986/2005/ncx/\" version=\"2005-1\"><navMap><navPoint id=\"n1\" playOrder=\"1\"><navLabel><text>Part One</text></navLabel><content src=\"c1.xhtml\"/><navPoint id=\"n2\" playOrder=\"2\"><navLabel><text>Inner Two</text></navLabel><content src=\"c2.xhtml#s\"/></navPoint></navPoint><navPoint id=\"n3\" playOrder=\"3\"><navLabel><text>Again Two</text></navLabel><content src=\"c2.xhtml\"/></navPoint></navMap></ncx>";

fn sample_epub(full_path: &str) -> Vec<u8> {
    let c = container(full_path);
    zip_stored(&[
        ("META-INF/container.xml", c.as_str()),
        ("OEBPS/content.opf", OPF),
        ("OEBPS/toc.ncx", NCX),
        ("OEBPS/c1.xhtml", "<html><body><p>Hello</p></body></html>"),
        ("OEBPS/c2.xhtml", "<html><body><p>World</p></body></html>"),
    ])
}

#[test]
fn parse_epub_reads_a_book_with_nested_toc() {
    let bytes = sample_epub("OEBPS/content.opf");
    assert!(opens_safely(&bytes));
    let book = parse_epub(bytes).unwrap().unwrap();
    assert_eq!(book.title, "Test Book");
    assert_eq!(book.creator, Some("Ann Author".to_string()));
    assert_eq!(book.chapters.len(), 2);
    assert_eq!(book.chapters[0].title, "Part One");
    assert_eq!(book.chapters[0].text, "Hello");
    assert_eq!(book.chapters[1].title, "Inner Two");
    assert_eq!(book.chapters[1].text, "World");
}

#[test]
fn parse_epub_refuses_a_root_file_without_parent() {
    let bytes = sample_epub("");
    assert!(!opens_safely(&bytes));
    assert!(parse_epub(bytes).is_none());
    assert!(opens_safely(&sample_epub("content.opf")));
}
