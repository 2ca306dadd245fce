use rebook::chapters::{build_chapter, collect_chapters, LoadedEntry};
use rebook::error::{EpubError, ErrorKind};
use rebook::mime::{mime_from_bytes, mime_from_path};
use rebook::models::{ExternalTtsConfig};
use rebook::package::{find_rootfile, parse_opf};
use rebook::path::{hex_value, normalize_path, percent_decode_path, resolve_relative_path};
use rebook::text::{count_words, trim_string};
use rebook::tts::{build_endpoint, check_vendor_status, minimax_mime, setting_or};

const JPEG: &[u8] = &[0xFF, 0xD8, 0xFF, 0xE0, 0x00, 0x10];
const PNG: &[u8] = &[0x89, 0x50, 0x4E, 0x47, 0x0D, 0x0A, 0x1A, 0x0A, 0x00];
const GIF: &[u8] = b"GIF87a\x02\x00";
const WEBP: &[u8] = b"RIFF\x24\x00\x00\x00WEBPVP8 ";

#[test]
fn word_count_counts_whitespace_separated_tokens() {
    let words: Vec<char> = "  one\ttwo \n three\u{a0}four  ".chars().collect();
    assert_eq!(count_words(&words), 4);
    assert_eq!(count_words(&Vec::new()), 0);
    assert_eq!(count_words(&"   ".chars().collect()), 0);
}

#[test]
fn trim_removes_unicode_whitespace() {
    assert_eq!(trim_string("\u{3000} hi there \n"), "hi there");
    assert_eq!(trim_string("   "), "");
}

#[test]
fn relative_paths_resolve_against_package_directory() {
    assert_eq!(resolve_relative_path("OEBPS/content.opf", "text/ch1.xhtml"), "OEBPS/text/ch1.xhtml");
    assert_eq!(resolve_relative_path("OEBPS/content.opf", "../images/c.jpg"), "images/c.jpg");
    assert_eq!(resolve_relative_path("OEBPS/content.opf", "./a/./b.xhtml"), "OEBPS/a/b.xhtml");
    assert_eq!(resolve_relative_path("content.opf", "ch1.xhtml"), "ch1.xhtml");
    assert_eq!(resolve_relative_path("a/b/content.opf", "/root.xhtml"), "/root.xhtml");
}

#[test]
fn parent_segment_with_nothing_to_cancel_is_dropped() {
    assert_eq!(resolve_relative_path("content.opf", "../../x.html"), "x.html");
    assert_eq!(normalize_path("../a/../../b"), "b");
    assert_eq!(normalize_path("/../a"), "/a");
}

#[test]
fn normalizing_twice_changes_nothing() {
    for p in ["a/./b/../c", "/x//y/", "../..", "a\\b\\..\\c", "", "./"] {
        let once = normalize_path(p);
        assert_eq!(normalize_path(&once), once);
    }
    assert_eq!(normalize_path("a\\b\\..\\c"), "a/c");
    assert_eq!(normalize_path("/x//y/"), "/x/y");
}

#[test]
fn percent_escapes_are_decoded() {
    assert_eq!(percent_decode_path("my%20file%2Exhtml"), "my file.xhtml");
    assert_eq!(percent_decode_path("100%"), "100%");
    assert_eq!(percent_decode_path("%zz%4"), "%zz%4");
    assert_eq!(percent_decode_path("%FF"), "\u{fffd}");
}

#[test]
fn hex_digits_have_values() {
    assert_eq!(hex_value(b'7'), Some(7));
    assert_eq!(hex_value(b'a'), Some(10));
    assert_eq!(hex_value(b'F'), Some(15));
    assert_eq!(hex_value(b'g'), None);
}

#[test]
fn mime_from_extension_ignores_case() {
    assert_eq!(mime_from_path("images/COVER.JPG").as_deref(), Some("image/jpeg"));
    assert_eq!(mime_from_path("a.jpeg").as_deref(), Some("image/jpeg"));
    assert_eq!(mime_from_path("a.Png").as_deref(), Some("image/png"));
    assert_eq!(mime_from_path("a.webp").as_deref(), Some("image/webp"));
    assert_eq!(mime_from_path("a.gif").as_deref(), Some("image/gif"));
    assert_eq!(mime_from_path("a.svg"), None);
}

#[test]
fn sniffed_mime_agrees_with_extension() {
    for (bytes, name) in [(JPEG, "f.jpg"), (PNG, "f.png"), (GIF, "f.gif"), (WEBP, "f.webp")] {
        assert!(mime_from_bytes(bytes).is_some());
        assert_eq!(mime_from_bytes(bytes), mime_from_path(name));
    }
    assert_eq!(mime_from_bytes(b"GIF8"), None);
    assert_eq!(mime_from_bytes(b""), None);
}

#[test]
fn rootfile_is_first_full_path() {
    let xml = r#"<container><rootfiles><rootfile full-path="a.opf"/><rootfile full-path="b.opf"/></rootfiles></container>"#;
    assert_eq!(find_rootfile(xml).ok().unwrap(), "a.opf");
    assert_eq!(find_rootfile("<oops").err().unwrap().kind, ErrorKind::XmlParseError);
}

fn package_with(metadata: &str, manifest: &str) -> String {
    format!("<package xmlns:dc=\"dc\"><metadata>{metadata}</metadata><manifest>{manifest}</manifest><spine><itemref idref=\"x\"/><itemref/><itemref idref=\"y\"/></spine><guide><reference type=\"cover\" href=\"guide.jpg\"/></guide></package>")
}

#[test]
fn cover_rules_apply_in_order() {
    let manifest = r#"<item id="m" href="meta.jpg" media-type="image/jpeg"/>
        <item id="p" href="prop.png" media-type="image/png" properties="nav cover-image"/>
        <item id="cover-guess" href="guess.gif" media-type="IMAGE/GIF"/>"#;
    let all = package_with(r#"<meta name="cover" content="m"/>"#, manifest);
    let cover = parse_opf(&all, "p.opf").ok().unwrap().cover.unwrap();
    assert_eq!(cover.href, "prop.png");
    assert_eq!(cover.media_type.as_deref(), Some("image/png"));

    let no_property = manifest.replace("nav cover-image", "nav");
    let meta = package_with(r#"<meta name="cover" content="m"/>"#, &no_property);
    assert_eq!(parse_opf(&meta, "p.opf").ok().unwrap().cover.unwrap().href, "meta.jpg");

    let guide = package_with("", &no_property);
    let cover = parse_opf(&guide, "p.opf").ok().unwrap().cover.unwrap();
    assert_eq!(cover.href, "guide.jpg");
    assert!(cover.media_type.is_none());

    let heuristic = package_with("", &no_property).replace("<reference type=\"cover\" href=\"guide.jpg\"/>", "");
    assert_eq!(parse_opf(&heuristic, "p.opf").ok().unwrap().cover.unwrap().href, "guess.gif");
}

#[test]
fn package_reads_metadata_manifest_and_spine() {
    let xml = package_with(
        "<dc:title>\n  Title  </dc:title><dc:creator> Ann </dc:creator>",
        r#"<item id="x" href="x.xhtml"/><item href="nohref.xhtml"/><item id="y" href="y1.xhtml"/><item id="y" href="y2.xhtml"/>"#,
    );
    let package = parse_opf(&xml, "p.opf").ok().unwrap();
    assert_eq!(package.title.as_deref(), Some("Title"));
    assert_eq!(package.author.as_deref(), Some("Ann"));
    assert_eq!(package.manifest.len(), 2);
    assert_eq!(package.manifest[1].href, "y2.xhtml");
    assert_eq!(package.spine, vec!["x".to_string(), "y".to_string()]);
}

#[test]
fn chapter_ids_follow_spine_positions() {
    let entries = vec![
        Some(LoadedEntry { title: Some("A".to_string()), text: " alpha beta ".to_string() }),
        None,
        Some(LoadedEntry { title: None, text: "\n\n".to_string() }),
        Some(LoadedEntry { title: None, text: "gamma".to_string() }),
    ];
    let chapters = collect_chapters(&entries);
    assert_eq!(chapters.len(), 2);
    assert_eq!(chapters[0].id, "chapter-1");
    assert_eq!(chapters[0].text, "alpha beta");
    assert_eq!(chapters[0].word_count, 2);
    assert_eq!(chapters[1].id, "chapter-4");
    assert_eq!(chapters[1].title, "Chapter 4");
}

#[test]
fn chapter_from_large_position() {
    let c = build_chapter(1204, &None, "x").unwrap();
    assert_eq!(c.id, "chapter-1204");
    assert_eq!(c.title, "Chapter 1204");
    assert!(build_chapter(3, &None, " \t ").is_none());
}

#[test]
fn error_messages_name_the_path() {
    let e = EpubError::new(ErrorKind::MissingEntryError, "OEBPS/a.xhtml");
    assert_eq!(e.message(), "Missing file OEBPS/a.xhtml");
    assert_eq!(EpubError::new(ErrorKind::NoChaptersError, "").message(), "No readable chapters found in EPUB.");
}

#[test]
fn endpoint_drops_trailing_slashes() {
    let config = ExternalTtsConfig {
        api_base_url: "https://tts.example/api//".to_string(),
        voice_id: None,
        output_format: None,
    };
    assert_eq!(build_endpoint(&config), "https://tts.example/api/synthesize");
}

#[test]
fn minimax_formats_have_media_types() {
    assert_eq!(minimax_mime("wav"), "audio/wav");
    assert_eq!(minimax_mime("flac"), "audio/flac");
    assert_eq!(minimax_mime("pcm"), "audio/pcm");
    assert_eq!(minimax_mime("mp3"), "audio/mpeg");
}

#[test]
fn settings_fall_back_to_defaults() {
    assert_eq!(setting_or(&Some(String::new()), "mp3"), "mp3");
    assert_eq!(setting_or(&None, "mp3"), "mp3");
    assert_eq!(setting_or(&Some("wav".to_string()), "mp3"), "wav");
}

#[test]
fn vendor_status_codes() {
    assert!(check_vendor_status(0, None, "failed").is_ok());
    assert_eq!(check_vendor_status(2, None, "Upload failed").err().unwrap(), "Upload failed");
    assert_eq!(check_vendor_status(2, Some("quota".to_string()), "x").err().unwrap(), "quota");
}

#[test]
fn minimax_hex_audio_becomes_base64() {
    let clip = rebook::tts::minimax_audio_clip("chapter-2".to_string(), "48656C6c6f", "wav").ok().unwrap();
    assert_eq!(clip.chapter_id, "chapter-2");
    assert_eq!(clip.audio_base64, "SGVsbG8=");
    assert_eq!(clip.mime, "audio/wav");
    assert!(rebook::tts::minimax_audio_clip("c".to_string(), "abc", "mp3").is_err());
    assert!(rebook::tts::minimax_audio_clip("c".to_string(), "zz", "mp3").is_err());
}

#[test]
fn parse_error_names_the_container() {
    let e = find_rootfile("<a><b></a>").err().unwrap();
    assert_eq!(e.message(), "Invalid XML in META-INF/container.xml");
}

#[test]
fn uploaded_audio_is_decoded_and_clips_encoded() {
    assert_eq!(rebook::tts::decode_audio("SGVsbG8=").ok().unwrap(), b"Hello".to_vec());
    assert!(rebook::tts::decode_audio("***").is_err());
    let clip = rebook::tts::audio_clip("chapter-1".to_string(), b"Hi!", "audio/mpeg".to_string());
    assert_eq!(clip.audio_base64, "SGkh");
    assert_eq!(clip.mime, "audio/mpeg");
}

#[test]
fn cover_image_must_be_a_whole_token() {
    let manifest = r#"<item id="a" href="a.png" media-type="image/png" properties="cover-images"/>
        <item id="b" href="b.png" media-type="image/png" properties="svg  cover-image"/>"#;
    let xml = format!("<package><manifest>{manifest}</manifest></package>");
    assert_eq!(parse_opf(&xml, "p.opf").ok().unwrap().cover.unwrap().href, "b.png");
}

#[test]
fn decode_error_carries_its_cause() {
    let e = rebook::epub::parse_epub("@@@@".to_string()).err().unwrap();
    assert_eq!(e.kind, ErrorKind::DecodeError);
    assert!(!e.detail.is_empty());
    assert!(e.message().starts_with("Invalid base64: "));
}
