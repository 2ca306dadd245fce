use base64::Engine;
use rebook::error::ErrorKind;
use rebook::epub::parse_epub;
use std::io::Write;

const CONTAINER: &str = r#"<?xml version="1.0"?>
<container version="1.0" xmlns="urn:oasis:names:tc:opendocument:xmlns:container">
  <rootfiles>
    <rootfile full-path="OEBPS/content.opf" media-type="application/oebps-package+xml"/>
  </rootfiles>
</container>"#;

const PNG: &[u8] = &[0x89, 0x50, 0x4E, 0x47, 0x0D, 0x0A, 0x1A, 0x0A, 0, 0, 0, 13, 1, 2, 3];

fn zip_of(files: &[(&str, &[u8])]) -> Vec<u8> {
    let mut writer = zip::ZipWriter::new(std::io::Cursor::new(Vec::new()));
    let options = zip::write::SimpleFileOptions::default()
        .compression_method(zip::CompressionMethod::Stored);
    for (name, data) in files {
        writer.start_file(*name, options).unwrap();
        writer.write_all(data).unwrap();
    }
    writer.finish().unwrap().into_inner()
}

fn encode(bytes: &[u8]) -> String {
    base64::engine::general_purpose::STANDARD.encode(bytes)
}

fn page(title: Option<&str>, body: &str) -> String {
    let head = match title {
        Some(t) => format!("<head><title>  {t}  </title></head>"),
        None => "<head></head>".to_string(),
    };
    format!("<html xmlns=\"http://www.w3.org/1999/xhtml\">{head}<body>{body}</body></html>")
}

fn opf(metadata: &str, manifest: &str, spine: &str) -> String {
    format!(
        "<?xml version=\"1.0\"?><package xmlns=\"http://www.idpf.org/2007/opf\" xmlns:dc=\"http://purl.org/dc/elements/1.1/\" version=\"3.0\"><metadata>{metadata}</metadata><manifest>{manifest}</manifest><spine>{spine}</spine></package>"
    )
}

fn book_of(opf_text: &str, extra: &[(&str, &[u8])]) -> String {
    let mut files: Vec<(&str, &[u8])> = vec![
        ("META-INF/container.xml", CONTAINER.as_bytes()),
        ("OEBPS/content.opf", opf_text.as_bytes()),
    ];
    files.extend_from_slice(extra);
    encode(&zip_of(&files))
}

#[test]
fn reads_title_author_and_chapters() {
    let package = opf(
        "<dc:title> A Tale </dc:title><dc:creator>Jo Writer</dc:creator>",
        r#"<item id="c1" href="text/one.xhtml" media-type="application/xhtml+xml"/>
           <item id="c2" href="text/two.xhtml" media-type="application/xhtml+xml"/>"#,
        r#"<itemref idref="c1"/><itemref idref="c2"/>"#,
    );
    let one = page(Some("Opening"), "<p>Hello brave new world</p>");
    let two = page(None, "<p>Second part here</p>");
    let data = book_of(&package, &[
        ("OEBPS/text/one.xhtml", one.as_bytes()),
        ("OEBPS/text/two.xhtml", two.as_bytes()),
    ]);
    let book = parse_epub(data).ok().unwrap();
    assert_eq!(book.title, "A Tale");
    assert_eq!(book.author.as_deref(), Some("Jo Writer"));
    assert_eq!(book.chapters.len(), 2);
    assert_eq!(book.chapters[0].id, "chapter-1");
    assert_eq!(book.chapters[0].title, "Opening");
    assert_eq!(book.chapters[0].text, "Hello brave new world");
    assert_eq!(book.chapters[0].word_count, 4);
    assert_eq!(book.chapters[1].id, "chapter-2");
    assert_eq!(book.chapters[1].title, "Chapter 2");
    assert_eq!(book.chapters[1].word_count, 3);
    assert!(book.cover_base64.is_none());
    assert!(book.cover_mime.is_none());
}

#[test]
fn untitled_book_gets_placeholder_title() {
    let package = opf("", r#"<item id="c1" href="one.xhtml"/>"#, r#"<itemref idref="c1"/>"#);
    let one = page(None, "<p>Words</p>");
    let book = parse_epub(book_of(&package, &[("OEBPS/one.xhtml", one.as_bytes())])).ok().unwrap();
    assert_eq!(book.title, "Untitled Book");
    assert!(book.author.is_none());
}

#[test]
fn missing_container_is_missing_entry() {
    let data = encode(&zip_of(&[("OEBPS/content.opf", b"<package/>")]));
    let error = parse_epub(data).err().unwrap();
    assert_eq!(error.kind, ErrorKind::MissingEntryError);
    assert_eq!(error.detail, "META-INF/container.xml");
}

#[test]
fn spine_entry_without_manifest_item_is_skipped() {
    let package = opf(
        "<dc:title>T</dc:title>",
        r#"<item id="c1" href="one.xhtml"/><item id="c3" href="three.xhtml"/>"#,
        r#"<itemref idref="c1"/><itemref idref="ghost"/><itemref idref="c3"/>"#,
    );
    let one = page(Some("One"), "<p>first</p>");
    let three = page(Some("Three"), "<p>third chapter</p>");
    let data = book_of(&package, &[
        ("OEBPS/one.xhtml", one.as_bytes()),
        ("OEBPS/three.xhtml", three.as_bytes()),
    ]);
    let book = parse_epub(data).ok().unwrap();
    assert_eq!(book.chapters.len(), 2);
    assert_eq!(book.chapters[0].id, "chapter-1");
    assert_eq!(book.chapters[1].id, "chapter-3");
    assert_eq!(book.chapters[1].title, "Three");
}

#[test]
fn unreadable_and_empty_chapters_keep_positions() {
    let package = opf(
        "",
        r#"<item id="a" href="a.xhtml"/><item id="b" href="missing.xhtml"/><item id="c" href="c.xhtml"/><item id="d" href="d.xhtml"/>"#,
        r#"<itemref idref="a"/><itemref idref="b"/><itemref idref="c"/><itemref idref="d"/>"#,
    );
    let a = page(None, "   ");
    let c = page(None, "<p>kept</p>");
    let d = page(None, "<p>also kept</p>");
    let data = book_of(&package, &[
        ("OEBPS/a.xhtml", a.as_bytes()),
        ("OEBPS/c.xhtml", c.as_bytes()),
        ("OEBPS/d.xhtml", d.as_bytes()),
    ]);
    let book = parse_epub(data).ok().unwrap();
    let ids: Vec<&str> = book.chapters.iter().map(|c| c.id.as_str()).collect();
    assert_eq!(ids, vec!["chapter-3", "chapter-4"]);
    assert_eq!(book.chapters[0].title, "Chapter 3");
}

#[test]
fn all_chapters_empty_is_no_chapters() {
    let package = opf(
        "<dc:title>Blank</dc:title>",
        r#"<item id="a" href="a.xhtml"/><item id="b" href="b.xhtml"/>"#,
        r#"<itemref idref="a"/><itemref idref="b"/>"#,
    );
    let a = page(Some("A"), "");
    let b = page(Some("B"), "  \n ");
    let data = book_of(&package, &[("OEBPS/a.xhtml", a.as_bytes()), ("OEBPS/b.xhtml", b.as_bytes())]);
    let error = parse_epub(data).err().unwrap();
    assert_eq!(error.kind, ErrorKind::NoChaptersError);
}

#[test]
fn invalid_base64_is_decode_error() {
    let error = parse_epub("not base64 at all!".to_string()).err().unwrap();
    assert_eq!(error.kind, ErrorKind::DecodeError);
}

#[test]
fn non_zip_bytes_are_archive_error() {
    let error = parse_epub(encode(b"plain bytes, no archive")).err().unwrap();
    assert_eq!(error.kind, ErrorKind::ArchiveError);
}

#[test]
fn malformed_package_is_xml_error() {
    let data = book_of("<package><unclosed></package>", &[]);
    let error = parse_epub(data).err().unwrap();
    assert_eq!(error.kind, ErrorKind::XmlParseError);
    assert_eq!(error.detail, "OEBPS/content.opf");
}

#[test]
fn container_without_rootfile_is_missing_field() {
    let data = encode(&zip_of(&[("META-INF/container.xml", b"<container><rootfiles/></container>")]));
    let error = parse_epub(data).err().unwrap();
    assert_eq!(error.kind, ErrorKind::MissingFieldError);
}

#[test]
fn cover_page_is_followed_to_its_image() {
    let package = opf(
        "",
        r#"<item id="cov" href="cover.xhtml" media-type="application/xhtml+xml" properties="cover-image"/>
           <item id="c1" href="one.xhtml"/>"#,
        r#"<itemref idref="c1"/>"#,
    );
    let wrapper = page(None, "<div><img src=\" images/cover.png \"/></div>");
    let one = page(None, "<p>text</p>");
    let data = book_of(&package, &[
        ("OEBPS/cover.xhtml", wrapper.as_bytes()),
        ("OEBPS/images/cover.png", PNG),
        ("OEBPS/one.xhtml", one.as_bytes()),
    ]);
    let book = parse_epub(data).ok().unwrap();
    assert_eq!(book.cover_base64.as_deref(), Some(encode(PNG).as_str()));
    assert_eq!(book.cover_mime.as_deref(), Some("image/png"));
}

#[test]
fn cover_type_is_sniffed_when_undeclared() {
    let package = opf(
        r#"<meta name="cover" content="pic"/>"#,
        r#"<item id="pic" href="images/picture"/><item id="c1" href="one.xhtml"/>"#,
        r#"<itemref idref="c1"/>"#,
    );
    let one = page(None, "<p>text</p>");
    let gif: &[u8] = b"GIF89a\x01\x00\x01\x00";
    let data = book_of(&package, &[("OEBPS/images/picture", gif), ("OEBPS/one.xhtml", one.as_bytes())]);
    let book = parse_epub(data).ok().unwrap();
    assert_eq!(book.cover_base64.as_deref(), Some(encode(gif).as_str()));
    assert_eq!(book.cover_mime.as_deref(), Some("image/gif"));
}

#[test]
fn unreadable_cover_is_left_out() {
    let package = opf(
        "",
        r#"<item id="cover-img" href="gone.jpg" media-type="image/jpeg"/><item id="c1" href="one.xhtml"/>"#,
        r#"<itemref idref="c1"/>"#,
    );
    let one = page(None, "<p>text</p>");
    let book = parse_epub(book_of(&package, &[("OEBPS/one.xhtml", one.as_bytes())])).ok().unwrap();
    assert!(book.cover_base64.is_none());
    assert!(book.cover_mime.is_none());
}

#[test]
fn percent_encoded_entry_names_are_found() {
    let package = opf("", r#"<item id="c1" href="my%20chapter.xhtml"/>"#, r#"<itemref idref="c1"/>"#);
    let one = page(Some("Spaced"), "<p>found me</p>");
    let book = parse_epub(book_of(&package, &[("OEBPS/my chapter.xhtml", one.as_bytes())])).ok().unwrap();
    assert_eq!(book.chapters[0].title, "Spaced");
    assert_eq!(book.chapters[0].text, "found me");
}
