//! Reading a whole book: container, package document, chapters in spine
//! order, and the cover.
use vstd::prelude::*;
use crate::archive::{
    archive_entries, archive_opens, base64_decoded, base64_encoded, decode_base64, encode_base64,
    entry_bytes, entry_text, open_archive, read_zip_bytes, read_zip_file, same_archive, zip_contents,
    Archive,
};
use crate::chapters::{
    chapter_id, chapters_upto, collect_chapters, lemma_chapters_follow_spine, loaded_view,
    yielding_positions, LoadedEntry,
};
use crate::error::{EpubError, ErrorKind};
use crate::mime::{extension_mime, mime_from_bytes, mime_from_path, opt_view, sniffed_mime};
use crate::models::{chapter_wf, chapters_view, Book, Chapter, ChapterView};
use crate::package::{
    container_path, cover_of, cover_view, find_item, find_rootfile, items_view, lookup, manifest_of,
    parse_opf, rootfile_of, spine_of, strings_view, trimmed_text, CoverRef, ItemView,
};
use crate::path::{resolve, resolve_relative_path};
use crate::text::{chars_end_with, chars_of, ends_with, lowercase_of, to_lowercase, trim, trim_string};
use crate::xml::{attribute, find_element, first_attr, nodes_view, parse_xml, xml_document, NodeView};

verus! {

/// The width, in columns, at which markup is converted to text.
pub const TEXT_WIDTH: usize = 120;

/// The text that `html2text` makes of the markup `s` at `width` columns, or
/// `None` where it reports an error.
pub uninterp spec fn html_text(s: Seq<char>, width: nat) -> Option<Seq<char>>;

/// Relies on `html2text::from_read`: the text depends on the markup and the
/// width alone.
#[verifier::external_body]
fn html_to_text(s: &str, width: usize) -> (r: Option<String>)
    ensures
        opt_view(r) == html_text(s@, width as nat),
{
    html2text::from_read(s.as_bytes(), width).ok()
}

/// The trimmed text of the first `title` element of the markup `content`.
pub fn extract_title(content: &str) -> (r: Option<String>)
    ensures
        opt_view(r) == match xml_document(content@) {
            Some(nodes) => trimmed_text(nodes, "title"@),
            None => None,
        },
{
    let nodes = parse_xml(content)?;
    let i = find_element(&nodes, "title", "", None);
    proof {
        reveal_strlit("");
        assert(""@ =~= Seq::<char>::empty());
    }
    match i {
        Some(i) => {
            assert(nodes_view(nodes@)[i as int] == nodes@[i as int]@);
            match &nodes[i].text {
                Some(t) => Some(trim_string(t.as_str())),
                None => None,
            }
        },
        None => None,
    }
}

/// The trimmed `src` of the first `img` element of the markup `content`.
pub fn extract_first_image_src(content: &str) -> (r: Option<String>)
    ensures
        opt_view(r) == match xml_document(content@) {
            Some(nodes) => match first_attr(nodes, "img"@, "src"@) {
                Some(s) => Some(trim(s)),
                None => None,
            },
            None => None,
        },
{
    let nodes = parse_xml(content)?;
    let i = find_element(&nodes, "img", "", None);
    proof {
        reveal_strlit("");
        assert(""@ =~= Seq::<char>::empty());
    }
    match i {
        Some(i) => {
            assert(nodes_view(nodes@)[i as int] == nodes@[i as int]@);
            match attribute(&nodes[i], "src") {
                Some(s) => Some(trim_string(s.as_str())),
                None => None,
            }
        },
        None => None,
    }
}

/// Whether the lower-case href names an XHTML or HTML page.
pub open spec fn is_page(lower: Seq<char>) -> bool {
    ends_with(lower, ".xhtml"@) || ends_with(lower, ".html"@)
}

/// Whether `href` names an XHTML or HTML page, ignoring case.
pub fn is_cover_page(href: &str) -> (r: bool)
    ensures
        r == is_page(lowercase_of(href@)),
{
    let lower = to_lowercase(href);
    let l = chars_of(lower.as_str());
    chars_end_with(&l, &chars_of(".xhtml")) || chars_end_with(&l, &chars_of(".html"))
}

/// The cover's media type: the declared one, else the one its href's
/// extension implies, else the one its bytes show.
pub open spec fn cover_mime_of(declared: Option<Seq<char>>, href: Seq<char>, bytes: Seq<u8>) -> Option<Seq<char>> {
    if declared is Some {
        declared
    } else if extension_mime(lowercase_of(href)) is Some {
        extension_mime(lowercase_of(href))
    } else {
        sniffed_mime(bytes)
    }
}

/// The cover as base64 text with its media type, from the bytes read at `href`.
pub fn cover_from_bytes(declared: Option<String>, href: &str, bytes: &[u8]) -> (r: (Option<String>, Option<String>))
    ensures
        r.0 matches Some(b) && b@ == base64_encoded(bytes@),
        opt_view(r.1) == cover_mime_of(opt_view(declared), href@, bytes@),
{
    let mime = match declared {
        Some(m) => Some(m),
        None => match mime_from_path(href) {
            Some(m) => Some(m),
            None => mime_from_bytes(bytes),
        },
    };
    (Some(encode_base64(bytes)), mime)
}

/// The cover reference after following a page: when the page shows an
/// image, its `src` with no declared type; otherwise the reference as it was.
pub open spec fn redirected(c: (Seq<char>, Option<Seq<char>>), page_image: Option<Seq<char>>) -> (Seq<char>, Option<Seq<char>>) {
    match page_image {
        Some(src) => (src, None),
        None => c,
    }
}

/// Follows a cover reference to an image: a page is read and its first
/// image taken instead.
pub fn follow_cover_page(cover: CoverRef, page_image: Option<String>) -> (r: CoverRef)
    ensures
        r@ == redirected(cover@, opt_view(page_image)),
{
    match page_image {
        Some(src) => CoverRef { href: src, media_type: None },
        None => cover,
    }
}

/// The first image that the page `content` shows: the trimmed `src` of
/// its first `img` element.
pub open spec fn page_image(content: Seq<char>) -> Option<Seq<char>> {
    match xml_document(content) {
        Some(nodes) => match first_attr(nodes, "img"@, "src"@) {
            Some(s) => Some(trim(s)),
            None => None,
        },
        None => None,
    }
}

/// Where the cover reference `c` leads: for a page that can be read, the
/// page's first image (with no declared type), else `c` itself.
pub open spec fn cover_target(
    entries: Map<Seq<char>, Seq<u8>>,
    opens: Set<Seq<char>>,
    opf_path: Seq<char>,
    c: (Seq<char>, Option<Seq<char>>),
) -> (Seq<char>, Option<Seq<char>>) {
    if is_page(lowercase_of(c.0)) {
        match entry_text(entries, opens, resolve(opf_path, c.0)) {
            Some(content) => redirected(c, page_image(content)),
            None => c,
        }
    } else {
        c
    }
}

/// The cover's base64 text and media type: those of the bytes where the
/// reference leads, or both `None` where there is no reference or no bytes.
pub open spec fn cover_result(
    entries: Map<Seq<char>, Seq<u8>>,
    opens: Set<Seq<char>>,
    opf_path: Seq<char>,
    cover: Option<(Seq<char>, Option<Seq<char>>)>,
) -> (Option<Seq<char>>, Option<Seq<char>>) {
    match cover {
        None => (None, None),
        Some(c) => {
            let t = cover_target(entries, opens, opf_path, c);
            match entry_bytes(entries, opens, resolve(opf_path, t.0)) {
                Some(b) => (Some(base64_encoded(b)), cover_mime_of(t.1, t.0, b)),
                None => (None, None),
            }
        },
    }
}

pub open spec fn pair_view(p: (Option<String>, Option<String>)) -> (Option<Seq<char>>, Option<Seq<char>>) {
    (opt_view(p.0), opt_view(p.1))
}

/// The cover's base64 text and media type, from the cover reference.
pub fn load_cover(zip: &mut Archive, opf_path: &str, cover: Option<CoverRef>) -> (r: (Option<String>, Option<String>))
    ensures
        same_archive(*final(zip), *old(zip)),
        pair_view(r) == cover_result(archive_entries(*old(zip)), archive_opens(*old(zip)), opf_path@, cover_view(cover)),
{
    let c = match cover {
        Some(c) => c,
        None => return (None, None),
    };
    let ghost first = c@;
    let mut c = c;
    if is_cover_page(c.href.as_str()) {
        let page_path = resolve_relative_path(opf_path, c.href.as_str());
        match read_zip_file(zip, page_path.as_str()) {
            Ok(content) => {
                let src = extract_first_image_src(content.as_str());
                c = follow_cover_page(c, src);
            },
            Err(_) => {},
        }
    }
    assert(c@ == cover_target(archive_entries(*old(zip)), archive_opens(*old(zip)), opf_path@, first));
    let path = resolve_relative_path(opf_path, c.href.as_str());
    match read_zip_bytes(zip, path.as_str()) {
        Ok(bytes) => cover_from_bytes(c.media_type, c.href.as_str(), bytes.as_slice()),
        Err(_) => (None, None),
    }
}

/// The title that the markup `content` gives in its first `title` element.
pub open spec fn markup_title(content: Seq<char>) -> Option<Seq<char>> {
    match xml_document(content) {
        Some(nodes) => trimmed_text(nodes, "title"@),
        None => None,
    }
}

/// What the spine entry `idref` loads: nothing where the manifest has no
/// such item, its path gives no text, or the markup does not convert; else
/// the markup's title and its text.
pub open spec fn spine_entry(
    entries: Map<Seq<char>, Seq<u8>>,
    opens: Set<Seq<char>>,
    opf_path: Seq<char>,
    manifest: Seq<ItemView>,
    idref: Seq<char>,
) -> Option<(Option<Seq<char>>, Seq<char>)> {
    match lookup(manifest, idref) {
        None => None,
        Some(it) => match entry_text(entries, opens, resolve(opf_path, it.href)) {
            None => None,
            Some(content) => match html_text(content, TEXT_WIDTH as nat) {
                Some(t) => Some((markup_title(content), t)),
                None => None,
            },
        },
    }
}

/// What each spine entry loads, in spine order.
pub open spec fn spine_entries(
    entries: Map<Seq<char>, Seq<u8>>,
    opens: Set<Seq<char>>,
    opf_path: Seq<char>,
    manifest: Seq<ItemView>,
    spine: Seq<Seq<char>>,
) -> Seq<Option<(Option<Seq<char>>, Seq<char>)>> {
    Seq::new(spine.len(), |i: int| spine_entry(entries, opens, opf_path, manifest, spine[i]))
}

/// Reads the spine entries: each that names a manifest item that can be
/// read and converted becomes its title and text; the rest are `None`.
fn load_spine(zip: &mut Archive, opf_path: &str, manifest: &Vec<crate::package::ManifestItem>, spine: &Vec<String>) -> (r: Vec<Option<LoadedEntry>>)
    ensures
        same_archive(*final(zip), *old(zip)),
        loaded_view(r@) == spine_entries(archive_entries(*old(zip)), archive_opens(*old(zip)), opf_path@,
            items_view(manifest@), strings_view(spine@)),
{
    let ghost entries = archive_entries(*zip);
    let ghost opens = archive_opens(*zip);
    let ghost want = spine_entries(entries, opens, opf_path@, items_view(manifest@), strings_view(spine@));
    let mut loaded: Vec<Option<LoadedEntry>> = Vec::new();
    let mut i: usize = 0;
    while i < spine.len()
        invariant
            i <= spine@.len(),
            entries == archive_entries(*old(zip)),
            opens == archive_opens(*old(zip)),
            archive_entries(*zip) == entries,
            archive_opens(*zip) == opens,
            want == spine_entries(entries, opens, opf_path@, items_view(manifest@), strings_view(spine@)),
            loaded@.len() == i,
            want.len() == spine@.len(),
            loaded_view(loaded@) == want.subrange(0, i as int),
        decreases spine@.len() - i,
    {
        let found = find_item(manifest, &spine[i]);
        assert(strings_view(spine@)[i as int] == spine@[i as int]@);
        proof {
            if found is Some {
                assert(items_view(manifest@)[found->0 as int] == manifest@[found->0 as int]@);
            }
        }
        let entry = match found {
            None => None,
            Some(k) => {
                let path = resolve_relative_path(opf_path, manifest[k].href.as_str());
                match read_zip_file(zip, path.as_str()) {
                    Err(_) => None,
                    Ok(content) => {
                        let title = extract_title(content.as_str());
                        match html_to_text(content.as_str(), TEXT_WIDTH) {
                            Some(text) => Some(LoadedEntry { title, text }),
                            None => None,
                        }
                    },
                }
            },
        };
        let ghost before = loaded@;
        loaded.push(entry);
        assert(loaded_view(loaded@)[i as int] == want[i as int]);
        assert(loaded_view(loaded@) =~= want.subrange(0, i + 1)) by {
            assert forall|j: int| 0 <= j < i implies loaded_view(loaded@)[j] == loaded_view(before)[j] by {}
        }
        i = i + 1;
    }
    assert(want.subrange(0, spine@.len() as int) =~= want);
    loaded
}

/// The mathematical value of a book.
pub struct BookView {
    pub title: Seq<char>,
    pub author: Option<Seq<char>>,
    pub chapters: Seq<ChapterView>,
    pub cover_base64: Option<Seq<char>>,
    pub cover_mime: Option<Seq<char>>,
}

pub open spec fn book_view(b: Book) -> BookView {
    BookView {
        title: b.title@,
        author: opt_view(b.author),
        chapters: chapters_view(b.chapters@),
        cover_base64: opt_view(b.cover_base64),
        cover_mime: opt_view(b.cover_mime),
    }
}

/// The book that the package document `nodes` at `opf_path` describes, or
/// `NoChaptersError` when no spine entry yields text.
pub open spec fn book_of_package(
    entries: Map<Seq<char>, Seq<u8>>,
    opens: Set<Seq<char>>,
    opf_path: Seq<char>,
    nodes: Seq<NodeView>,
) -> Result<BookView, ErrorKind> {
    let m = manifest_of(nodes);
    let loaded = spine_entries(entries, opens, opf_path, m, spine_of(nodes));
    let chapters = chapters_upto(loaded, loaded.len() as int);
    if chapters.len() == 0 {
        Err(ErrorKind::NoChaptersError)
    } else {
        let cover = cover_result(entries, opens, opf_path, cover_of(nodes, m));
        Ok(BookView {
            title: match trimmed_text(nodes, "title"@) {
                Some(t) => t,
                None => "Untitled Book"@,
            },
            author: trimmed_text(nodes, "creator"@),
            chapters,
            cover_base64: cover.0,
            cover_mime: cover.1,
        })
    }
}

/// The book that an archive holding `entries` (opening `opens`) gives, or
/// the kind of error that stops it: the container document, the package
/// document that its first `rootfile` names, then the book.
pub open spec fn book_from(entries: Map<Seq<char>, Seq<u8>>, opens: Set<Seq<char>>) -> Result<BookView, ErrorKind> {
    match entry_text(entries, opens, container_path()) {
        None => Err(ErrorKind::MissingEntryError),
        Some(container) => match xml_document(container) {
            None => Err(ErrorKind::XmlParseError),
            Some(cn) => match rootfile_of(cn) {
                None => Err(ErrorKind::MissingFieldError),
                Some(opf_path) => match entry_text(entries, opens, opf_path) {
                    None => Err(ErrorKind::MissingEntryError),
                    Some(opf) => match xml_document(opf) {
                        None => Err(ErrorKind::XmlParseError),
                        Some(nodes) => book_of_package(entries, opens, opf_path, nodes),
                    },
                },
            },
        },
    }
}

/// Of the spine entries of a book that an archive gives, the `M` that
/// yield text give exactly its `M` chapters, in spine order, each with the
/// id of its own 1-based spine position and well formed.
pub proof fn lemma_book_chapters_follow_spine(entries: Map<Seq<char>, Seq<u8>>, opens: Set<Seq<char>>)
    requires
        book_from(entries, opens) is Ok,
    ensures
        exists|loaded: Seq<Option<(Option<Seq<char>>, Seq<char>)>>| {
            let cs = book_from(entries, opens)->Ok_0.chapters;
            let ps = yielding_positions(loaded, loaded.len() as int);
            &&& #[trigger] chapters_upto(loaded, loaded.len() as int) == cs
            &&& cs.len() == ps.len()
            &&& forall|k: int| 0 <= k < ps.len() ==> 1 <= #[trigger] ps[k] <= loaded.len()
            &&& forall|j: int, k: int| 0 <= j < k < ps.len() ==> ps[j] < ps[k]
            &&& forall|k: int| 0 <= k < cs.len() ==> (#[trigger] cs[k]).id == chapter_id(ps[k])
            &&& forall|k: int| 0 <= k < cs.len() ==> chapter_wf(#[trigger] cs[k])
        },
{
    let container = entry_text(entries, opens, container_path())->0;
    let cn = xml_document(container)->0;
    let opf_path = rootfile_of(cn)->0;
    let opf = entry_text(entries, opens, opf_path)->0;
    let nodes = xml_document(opf)->0;
    let loaded = spine_entries(entries, opens, opf_path, manifest_of(nodes), spine_of(nodes));
    lemma_chapters_follow_spine(loaded, loaded.len() as int);
    assert(chapters_upto(loaded, loaded.len() as int) == book_from(entries, opens)->Ok_0.chapters);
}

/// Whether `r` is the outcome `want`: the book it describes, or an error
/// of its kind.
pub open spec fn outcome_is(r: Result<Book, EpubError>, want: Result<BookView, ErrorKind>) -> bool {
    match want {
        Ok(v) => r is Ok && book_view(r->Ok_0) == v,
        Err(k) => r is Err && r->Err_0.kind == k,
    }
}

/// The book from its parts; the title defaults to `Untitled Book`.
pub fn assemble_book(title: Option<String>, author: Option<String>, chapters: Vec<Chapter>, cover: (Option<String>, Option<String>)) -> (r: Book)
    ensures
        r.title@ == match opt_view(title) {
            Some(t) => t,
            None => "Untitled Book"@,
        },
        opt_view(r.author) == opt_view(author),
        chapters_view(r.chapters@) == chapters_view(chapters@),
        opt_view(r.cover_base64) == opt_view(cover.0),
        opt_view(r.cover_mime) == opt_view(cover.1),
{
    let title = match title {
        Some(t) => t,
        None => String::from_str("Untitled Book"),
    };
    Book { title, author, chapters, cover_base64: cover.0, cover_mime: cover.1 }
}

/// Reads a book from an open archive.
pub fn parse_archive(zip: &mut Archive) -> (r: Result<Book, EpubError>)
    ensures
        same_archive(*final(zip), *old(zip)),
        outcome_is(r, book_from(archive_entries(*old(zip)), archive_opens(*old(zip)))),
{
    let ghost entries = archive_entries(*zip);
    let ghost opens = archive_opens(*zip);
    let container = read_zip_file(zip, "META-INF/container.xml")?;
    let opf_path = find_rootfile(container.as_str())?;
    let opf_xml = read_zip_file(zip, opf_path.as_str())?;
    let package = parse_opf(opf_xml.as_str(), opf_path.as_str())?;
    let loaded = load_spine(zip, opf_path.as_str(), &package.manifest, &package.spine);
    let chapters = collect_chapters(&loaded);
    let ghost nodes = xml_document(opf_xml@)->0;
    assert(loaded_view(loaded@) == spine_entries(entries, opens, opf_path@, manifest_of(nodes), spine_of(nodes)));
    if chapters.len() == 0 {
        return Err(EpubError::new(ErrorKind::NoChaptersError, ""));
    }
    let cover = load_cover(zip, opf_path.as_str(), package.cover);
    let book = assemble_book(package.title, package.author, chapters, cover);
    assert(book_view(book) == book_of_package(entries, opens, opf_path@, nodes)->Ok_0);
    Ok(book)
}

/// Reads a book from the base64 text of an EPUB archive.
pub fn parse_epub(base64: String) -> (r: Result<Book, EpubError>)
    ensures
        match base64_decoded(base64@) {
            None => r is Err && r->Err_0.kind == ErrorKind::DecodeError,
            Some(bytes) => match zip_contents(bytes) {
                None => r is Err && r->Err_0.kind == ErrorKind::ArchiveError,
                Some(held) => outcome_is(r, book_from(held.0, held.1)),
            },
        },
{
    let bytes = match decode_base64(base64.as_str()) {
        Ok(b) => b,
        Err(cause) => return Err(EpubError { kind: ErrorKind::DecodeError, detail: cause }),
    };
    let mut zip = match open_archive(bytes) {
        Ok(z) => z,
        Err(cause) => return Err(EpubError { kind: ErrorKind::ArchiveError, detail: cause }),
    };
    parse_archive(&mut zip)
}

} // verus!
