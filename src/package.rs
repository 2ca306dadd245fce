//! The container document and the package document: where the package
//! lives, its title and author, manifest, spine, and cover reference.
use vstd::prelude::*;
use crate::error::{EpubError, ErrorKind};
use crate::mime::opt_view;
use crate::text::{
    chars_contain, chars_have_token, chars_of, has_token, chars_start_with, contains, lowercase_of, starts_with, to_lowercase,
    trim, trim_string,
};
use crate::xml::{
    attr_of, attribute, find_element, first_match, first_named, nodes_view, opt_index,
    opt_str_view, parse_xml, xml_document, NodeView, XmlNode,
};

verus! {

/// A resource that the package document declares.
pub struct ManifestItem {
    pub id: String,
    pub href: String,
    pub media_type: Option<String>,
    pub properties: Option<String>,
}

pub struct ItemView {
    pub id: Seq<char>,
    pub href: Seq<char>,
    pub media_type: Option<Seq<char>>,
    pub properties: Option<Seq<char>>,
}

impl View for ManifestItem {
    type V = ItemView;

    open spec fn view(&self) -> ItemView {
        ItemView {
            id: self.id@,
            href: self.href@,
            media_type: opt_view(self.media_type),
            properties: opt_view(self.properties),
        }
    }
}

/// Where the cover is to be found, with the media type declared for it.
pub struct CoverRef {
    pub href: String,
    pub media_type: Option<String>,
}

impl View for CoverRef {
    type V = (Seq<char>, Option<Seq<char>>);

    open spec fn view(&self) -> (Seq<char>, Option<Seq<char>>) {
        (self.href@, opt_view(self.media_type))
    }
}

/// What the package document says of the book.
pub struct Package {
    pub title: Option<String>,
    pub author: Option<String>,
    /// Declared resources in document order, one per id; a later
    /// declaration of an id replaces the earlier one in its place.
    pub manifest: Vec<ManifestItem>,
    /// Manifest ids in reading order.
    pub spine: Vec<String>,
    pub cover: Option<CoverRef>,
}

pub open spec fn items_view(m: Seq<ManifestItem>) -> Seq<ItemView> {
    m.map_values(|it: ManifestItem| it@)
}

pub open spec fn strings_view(v: Seq<String>) -> Seq<Seq<char>> {
    v.map_values(|s: String| s@)
}

pub open spec fn cover_view(c: Option<CoverRef>) -> Option<(Seq<char>, Option<Seq<char>>)> {
    match c {
        Some(c) => Some(c@),
        None => None,
    }
}

/// The fixed path of the container document.
pub open spec fn container_path() -> Seq<char> {
    "META-INF/container.xml"@
}

/// The `full-path` of the first `rootfile` element.
pub open spec fn rootfile_of(nodes: Seq<NodeView>) -> Option<Seq<char>> {
    match first_named(nodes, "rootfile"@) {
        Some(i) => attr_of(nodes[i].attributes, "full-path"@),
        None => None,
    }
}

/// The trimmed text of the first element called `name`.
pub open spec fn trimmed_text(nodes: Seq<NodeView>, name: Seq<char>) -> Option<Seq<char>> {
    match first_named(nodes, name) {
        Some(i) => match nodes[i].text {
            Some(t) => Some(trim(t)),
            None => None,
        },
        None => None,
    }
}

/// Whether `n` declares a manifest item: an `item` element with `id` and `href`.
pub open spec fn declares_item(n: NodeView) -> bool {
    &&& n.is_element
    &&& n.name == "item"@
    &&& attr_of(n.attributes, "id"@) is Some
    &&& attr_of(n.attributes, "href"@) is Some
}

/// The item that `n` declares.
pub open spec fn item_of(n: NodeView) -> ItemView {
    ItemView {
        id: attr_of(n.attributes, "id"@)->0,
        href: attr_of(n.attributes, "href"@)->0,
        media_type: attr_of(n.attributes, "media-type"@),
        properties: attr_of(n.attributes, "properties"@),
    }
}

/// The first index at or after `k` of an item for which `p` holds.
pub open spec fn first_item_where(m: Seq<ItemView>, p: spec_fn(ItemView) -> bool, k: int) -> Option<int>
    decreases m.len() - k,
{
    if k < 0 || k >= m.len() {
        None
    } else if p(m[k]) {
        Some(k)
    } else {
        first_item_where(m, p, k + 1)
    }
}

pub proof fn lemma_first_item_in_range(m: Seq<ItemView>, p: spec_fn(ItemView) -> bool, k: int)
    ensures
        first_item_where(m, p, k) matches Some(j) ==> k <= j < m.len() && p(m[j]),
    decreases m.len() - k,
{
    if 0 <= k < m.len() && !p(m[k]) {
        lemma_first_item_in_range(m, p, k + 1);
    }
}

pub proof fn lemma_first_item_none(m: Seq<ItemView>, p: spec_fn(ItemView) -> bool, k: int)
    requires
        0 <= k,
        first_item_where(m, p, k) is None,
    ensures
        forall|j: int| k <= j < m.len() ==> !p(#[trigger] m[j]),
    decreases m.len() - k,
{
    if k < m.len() {
        lemma_first_item_none(m, p, k + 1);
    }
}

/// No two items of the manifest share an id.
pub open spec fn ids_unique(m: Seq<ItemView>) -> bool {
    forall|i: int, j: int| 0 <= i < j < m.len() ==> (#[trigger] m[i]).id != (#[trigger] m[j]).id
}

/// The manifest is keyed by id: whatever the document declares, no two of
/// its items share an id.
pub proof fn lemma_manifest_ids_unique(nodes: Seq<NodeView>, n: int)
    ensures
        ids_unique(manifest_upto(nodes, n)),
    decreases n,
{
    if n > 0 {
        lemma_manifest_ids_unique(nodes, n - 1);
        if declares_item(nodes[n - 1]) {
            let m = manifest_upto(nodes, n - 1);
            let it = item_of(nodes[n - 1]);
            let p = |x: ItemView| x.id == it.id;
            match index_of_id(m, it.id) {
                Some(k) => {
                    lemma_first_item_in_range(m, p, 0);
                    let u = m.update(k, it);
                    assert forall|i: int, j: int| 0 <= i < j < u.len() implies (#[trigger] u[i]).id != (#[trigger] u[j]).id by {
                        assert(m[i].id != m[j].id);
                    }
                },
                None => {
                    lemma_first_item_none(m, p, 0);
                    let u = m.push(it);
                    assert forall|i: int, j: int| 0 <= i < j < u.len() implies (#[trigger] u[i]).id != (#[trigger] u[j]).id by {
                        if j < m.len() {
                            assert(m[i].id != m[j].id);
                        } else {
                            assert(!p(m[i]));
                        }
                    }
                },
            }
        }
    }
}

/// The index of the item with id `id`.
pub open spec fn index_of_id(m: Seq<ItemView>, id: Seq<char>) -> Option<int> {
    first_item_where(m, |it: ItemView| it.id == id, 0)
}

/// The item with id `id`.
pub open spec fn lookup(m: Seq<ItemView>, id: Seq<char>) -> Option<ItemView> {
    match index_of_id(m, id) {
        Some(k) => Some(m[k]),
        None => None,
    }
}

/// `m` with `it` added, or put in the place of the item with the same id.
pub open spec fn put_item(m: Seq<ItemView>, it: ItemView) -> Seq<ItemView> {
    match index_of_id(m, it.id) {
        Some(k) => m.update(k, it),
        None => m.push(it),
    }
}

/// The manifest that the first `n` nodes declare.
pub open spec fn manifest_upto(nodes: Seq<NodeView>, n: int) -> Seq<ItemView>
    decreases n,
{
    if n <= 0 {
        Seq::empty()
    } else if declares_item(nodes[n - 1]) {
        put_item(manifest_upto(nodes, n - 1), item_of(nodes[n - 1]))
    } else {
        manifest_upto(nodes, n - 1)
    }
}

/// The manifest of the package document `nodes`.
pub open spec fn manifest_of(nodes: Seq<NodeView>) -> Seq<ItemView> {
    manifest_upto(nodes, nodes.len() as int)
}

/// The `idref`s of the `itemref` elements among the first `n` nodes.
pub open spec fn spine_upto(nodes: Seq<NodeView>, n: int) -> Seq<Seq<char>>
    decreases n,
{
    if n <= 0 {
        Seq::empty()
    } else {
        let n0 = nodes[n - 1];
        let s = spine_upto(nodes, n - 1);
        if n0.is_element && n0.name == "itemref"@ && attr_of(n0.attributes, "idref"@) is Some {
            s.push(attr_of(n0.attributes, "idref"@)->0)
        } else {
            s
        }
    }
}

/// The spine of the package document `nodes`.
pub open spec fn spine_of(nodes: Seq<NodeView>) -> Seq<Seq<char>> {
    spine_upto(nodes, nodes.len() as int)
}

pub open spec fn cover_of_item(it: ItemView) -> (Seq<char>, Option<Seq<char>>) {
    (it.href, it.media_type)
}

/// Whether the item's `properties` hold the token `cover-image`.
pub open spec fn has_cover_property(it: ItemView) -> bool {
    match it.properties {
        Some(p) => has_token(p, "cover-image"@),
        None => false,
    }
}

/// Whether the item is declared as an image and its id or href mentions
/// `cover`, ignoring case.
pub open spec fn looks_like_cover(it: ItemView) -> bool {
    &&& match it.media_type {
        Some(t) => starts_with(lowercase_of(t), "image/"@),
        None => false,
    }
    &&& (contains(lowercase_of(it.id), "cover"@) || contains(lowercase_of(it.href), "cover"@))
}

/// First rule: an item whose properties mark it as the cover image.
pub open spec fn cover_by_property(m: Seq<ItemView>) -> Option<(Seq<char>, Option<Seq<char>>)> {
    match first_item_where(m, |it: ItemView| has_cover_property(it), 0) {
        Some(k) => Some(cover_of_item(m[k])),
        None => None,
    }
}

/// Second rule: the item that the first `<meta name="cover">` names by id.
pub open spec fn cover_by_meta(nodes: Seq<NodeView>, m: Seq<ItemView>) -> Option<(Seq<char>, Option<Seq<char>>)> {
    match first_match(nodes, "meta"@, "name"@, Some("cover"@), 0) {
        Some(i) => match attr_of(nodes[i].attributes, "content"@) {
            Some(id) => match lookup(m, id) {
                Some(it) => Some(cover_of_item(it)),
                None => None,
            },
            None => None,
        },
        None => None,
    }
}

/// Third rule: the href of the first guide `<reference type="cover">`.
pub open spec fn cover_by_guide(nodes: Seq<NodeView>) -> Option<(Seq<char>, Option<Seq<char>>)> {
    match first_match(nodes, "reference"@, "type"@, Some("cover"@), 0) {
        Some(i) => match attr_of(nodes[i].attributes, "href"@) {
            Some(h) => Some((h, None)),
            None => None,
        },
        None => None,
    }
}

/// Fourth rule: an image item whose id or href mentions `cover`.
pub open spec fn cover_by_name(m: Seq<ItemView>) -> Option<(Seq<char>, Option<Seq<char>>)> {
    match first_item_where(m, |it: ItemView| looks_like_cover(it), 0) {
        Some(k) => Some(cover_of_item(m[k])),
        None => None,
    }
}

/// The cover reference: the first of the four rules that finds one.
pub open spec fn cover_of(nodes: Seq<NodeView>, m: Seq<ItemView>) -> Option<(Seq<char>, Option<Seq<char>>)> {
    if cover_by_property(m) is Some {
        cover_by_property(m)
    } else if cover_by_meta(nodes, m) is Some {
        cover_by_meta(nodes, m)
    } else if cover_by_guide(nodes) is Some {
        cover_by_guide(nodes)
    } else {
        cover_by_name(m)
    }
}

/// The rules are tried strictly in order, and the first that finds a
/// cover decides, whatever the later ones would find.
pub proof fn lemma_cover_first_rule_wins(nodes: Seq<NodeView>, m: Seq<ItemView>)
    ensures
        cover_by_property(m) is Some ==> cover_of(nodes, m) == cover_by_property(m),
        cover_by_property(m) is None && cover_by_meta(nodes, m) is Some
            ==> cover_of(nodes, m) == cover_by_meta(nodes, m),
        cover_by_property(m) is None && cover_by_meta(nodes, m) is None
            && cover_by_guide(nodes) is Some ==> cover_of(nodes, m) == cover_by_guide(nodes),
        cover_by_property(m) is None && cover_by_meta(nodes, m) is None
            && cover_by_guide(nodes) is None ==> cover_of(nodes, m) == cover_by_name(m),
{
}

/// The package document's path, from the container document's nodes.
pub fn rootfile_path(nodes: &Vec<XmlNode>) -> (r: Result<String, EpubError>)
    ensures
        match r {
            Ok(p) => rootfile_of(nodes_view(nodes@)) == Some(p@),
            Err(e) => rootfile_of(nodes_view(nodes@)) is None && e.kind == ErrorKind::MissingFieldError,
        },
{
    proof {
        reveal_strlit("");
        assert(""@ =~= Seq::<char>::empty());
    }
    match find_element(nodes, "rootfile", "", None) {
        Some(i) => match attribute(&nodes[i], "full-path") {
            Some(p) => Ok(p),
            None => Err(EpubError::new(ErrorKind::MissingFieldError, "")),
        },
        None => Err(EpubError::new(ErrorKind::MissingFieldError, "")),
    }
}

/// The package document's path, from the container document's text.
pub fn find_rootfile(container_xml: &str) -> (r: Result<String, EpubError>)
    ensures
        match xml_document(container_xml@) {
            None => r matches Err(e) && e.kind == ErrorKind::XmlParseError && e.detail@ == container_path(),
            Some(nodes) => match r {
                Ok(p) => rootfile_of(nodes) == Some(p@),
                Err(e) => rootfile_of(nodes) is None && e.kind == ErrorKind::MissingFieldError,
            },
        },
{
    match parse_xml(container_xml) {
        Some(nodes) => rootfile_path(&nodes),
        None => Err(EpubError::new(ErrorKind::XmlParseError, "META-INF/container.xml")),
    }
}

fn trimmed_first_text(nodes: &Vec<XmlNode>, name: &str) -> (r: Option<String>)
    ensures
        opt_view(r) == trimmed_text(nodes_view(nodes@), name@),
{
    proof {
        reveal_strlit("");
        assert(""@ =~= Seq::<char>::empty());
    }
    match find_element(nodes, name, "", None) {
        Some(i) => {
            assert(nodes_view(nodes@)[i as int] == nodes@[i as int]@);
            match &nodes[i].text {
                Some(t) => Some(trim_string(t.as_str())),
                None => None,
            }
        },
        None => None,
    }
}

fn item_from_node(n: &XmlNode) -> (r: Option<ManifestItem>)
    ensures
        match r {
            Some(it) => declares_item(n@) && it@ == item_of(n@),
            None => !declares_item(n@),
        },
{
    if !n.is_element || !crate::xml::same_text(&n.name, "item") {
        return None;
    }
    let id = attribute(n, "id");
    let href = attribute(n, "href");
    match (id, href) {
        (Some(id), Some(href)) => Some(ManifestItem {
            id,
            href,
            media_type: attribute(n, "media-type"),
            properties: attribute(n, "properties"),
        }),
        _ => None,
    }
}

/// The index of the item with id `id` in `m`.
pub fn find_item(m: &Vec<ManifestItem>, id: &String) -> (r: Option<usize>)
    ensures
        opt_index(r) == index_of_id(items_view(m@), id@),
        r matches Some(k) ==> k < m@.len(),
{
    proof {
        lemma_first_item_in_range(items_view(m@), |it: ItemView| it.id == id@, 0);
    }
    let ghost mv = items_view(m@);
    let ghost p = |it: ItemView| it.id == id@;
    let mut k: usize = 0;
    while k < m.len()
        invariant
            mv == items_view(m@),
            mv.len() == m@.len(),
            p == (|it: ItemView| it.id == id@),
            k <= m@.len(),
            first_item_where(mv, p, 0) == first_item_where(mv, p, k as int),
        decreases m@.len() - k,
    {
        assert(mv[k as int] == m@[k as int]@);
        if m[k].id.eq(id) {
            return Some(k);
        }
        k = k + 1;
    }
    None
}

fn put_item_exec(m: &mut Vec<ManifestItem>, it: ManifestItem)
    ensures
        items_view(final(m)@) == put_item(items_view(old(m)@), it@),
{
    match find_item(m, &it.id) {
        Some(k) => {
            let ghost v = it@;
            m.set(k, it);
            assert(items_view(m@) =~= put_item(items_view(old(m)@), v));
        },
        None => {
            let ghost v = it@;
            m.push(it);
            assert(items_view(m@) =~= put_item(items_view(old(m)@), v));
        },
    }
}

/// The manifest declared by the nodes of a package document.
pub fn manifest_from_nodes(nodes: &Vec<XmlNode>) -> (r: Vec<ManifestItem>)
    ensures
        items_view(r@) == manifest_of(nodes_view(nodes@)),
{
    let ghost nv = nodes_view(nodes@);
    let mut m: Vec<ManifestItem> = Vec::new();
    let mut i: usize = 0;
    assert(items_view(m@) =~= Seq::<ItemView>::empty());
    while i < nodes.len()
        invariant
            nv == nodes_view(nodes@),
            nv.len() == nodes@.len(),
            i <= nodes@.len(),
            items_view(m@) == manifest_upto(nv, i as int),
        decreases nodes@.len() - i,
    {
        assert(nv[i as int] == nodes@[i as int]@);
        match item_from_node(&nodes[i]) {
            Some(it) => put_item_exec(&mut m, it),
            None => {},
        }
        i = i + 1;
    }
    m
}

/// The spine declared by the nodes of a package document.
pub fn spine_from_nodes(nodes: &Vec<XmlNode>) -> (r: Vec<String>)
    ensures
        strings_view(r@) == spine_of(nodes_view(nodes@)),
{
    let ghost nv = nodes_view(nodes@);
    let mut s: Vec<String> = Vec::new();
    let mut i: usize = 0;
    assert(strings_view(s@) =~= Seq::<Seq<char>>::empty());
    while i < nodes.len()
        invariant
            nv == nodes_view(nodes@),
            nv.len() == nodes@.len(),
            i <= nodes@.len(),
            strings_view(s@) == spine_upto(nv, i as int),
        decreases nodes@.len() - i,
    {
        let n = &nodes[i];
        assert(nv[i as int] == n@);
        if n.is_element && crate::xml::same_text(&n.name, "itemref") {
            match attribute(n, "idref") {
                Some(r) => {
                    let ghost v = r@;
                    s.push(r);
                    assert(strings_view(s@) =~= spine_upto(nv, i as int).push(v));
                },
                None => {},
            }
        }
        i = i + 1;
    }
    s
}

fn copy_cover(it: &ManifestItem) -> (r: CoverRef)
    ensures
        r@ == cover_of_item(it@),
{
    CoverRef { href: it.href.clone(), media_type: it.media_type.clone() }
}

fn item_has_cover_property(it: &ManifestItem) -> (r: bool)
    ensures
        r == has_cover_property(it@),
{
    match &it.properties {
        Some(p) => {
            let pc = chars_of(p.as_str());
            let t = chars_of("cover-image");
            chars_have_token(&pc, &t)
        },
        None => false,
    }
}

fn item_looks_like_cover(it: &ManifestItem) -> (r: bool)
    ensures
        r == looks_like_cover(it@),
{
    let image = match &it.media_type {
        Some(t) => {
            let lower = to_lowercase(t.as_str());
            let lc = chars_of(lower.as_str());
            let prefix = chars_of("image/");
            chars_start_with(&lc, &prefix)
        },
        None => false,
    };
    if !image {
        return false;
    }
    let word = chars_of("cover");
    let id_lower = to_lowercase(it.id.as_str());
    let href_lower = to_lowercase(it.href.as_str());
    chars_contain(&chars_of(id_lower.as_str()), &word) || chars_contain(
        &chars_of(href_lower.as_str()),
        &word,
    )
}

/// First rule: an item whose properties mark it as the cover image.
pub fn find_cover_by_property(m: &Vec<ManifestItem>) -> (r: Option<CoverRef>)
    ensures
        cover_view(r) == cover_by_property(items_view(m@)),
{
    let ghost mv = items_view(m@);
    let ghost p = |it: ItemView| has_cover_property(it);
    let mut k: usize = 0;
    while k < m.len()
        invariant
            mv == items_view(m@),
            mv.len() == m@.len(),
            p == (|it: ItemView| has_cover_property(it)),
            k <= m@.len(),
            first_item_where(mv, p, 0) == first_item_where(mv, p, k as int),
        decreases m@.len() - k,
    {
        assert(mv[k as int] == m@[k as int]@);
        if item_has_cover_property(&m[k]) {
            return Some(copy_cover(&m[k]));
        }
        k = k + 1;
    }
    None
}

/// Fourth rule: an image item whose id or href mentions `cover`.
pub fn find_cover_by_name(m: &Vec<ManifestItem>) -> (r: Option<CoverRef>)
    ensures
        cover_view(r) == cover_by_name(items_view(m@)),
{
    let ghost mv = items_view(m@);
    let ghost p = |it: ItemView| looks_like_cover(it);
    let mut k: usize = 0;
    while k < m.len()
        invariant
            mv == items_view(m@),
            mv.len() == m@.len(),
            p == (|it: ItemView| looks_like_cover(it)),
            k <= m@.len(),
            first_item_where(mv, p, 0) == first_item_where(mv, p, k as int),
        decreases m@.len() - k,
    {
        assert(mv[k as int] == m@[k as int]@);
        if item_looks_like_cover(&m[k]) {
            return Some(copy_cover(&m[k]));
        }
        k = k + 1;
    }
    None
}

/// Second rule: the item that the first `<meta name="cover">` names by id.
pub fn find_cover_by_meta(nodes: &Vec<XmlNode>, m: &Vec<ManifestItem>) -> (r: Option<CoverRef>)
    ensures
        cover_view(r) == cover_by_meta(nodes_view(nodes@), items_view(m@)),
{
    let i = find_element(nodes, "meta", "name", Some("cover"))?;
    assert(nodes_view(nodes@)[i as int] == nodes@[i as int]@);
    let id = attribute(&nodes[i], "content")?;
    let k = find_item(m, &id)?;
    assert(items_view(m@)[k as int] == m@[k as int]@);
    Some(copy_cover(&m[k]))
}

/// Third rule: the href of the first guide `<reference type="cover">`.
pub fn find_cover_by_guide(nodes: &Vec<XmlNode>) -> (r: Option<CoverRef>)
    ensures
        cover_view(r) == cover_by_guide(nodes_view(nodes@)),
{
    let i = find_element(nodes, "reference", "type", Some("cover"))?;
    assert(nodes_view(nodes@)[i as int] == nodes@[i as int]@);
    let href = attribute(&nodes[i], "href")?;
    Some(CoverRef { href, media_type: None })
}

/// The cover reference: the rules are tried in order and the first that
/// finds one decides.
pub fn find_cover(nodes: &Vec<XmlNode>, m: &Vec<ManifestItem>) -> (r: Option<CoverRef>)
    ensures
        cover_view(r) == cover_of(nodes_view(nodes@), items_view(m@)),
{
    let by_property = find_cover_by_property(m);
    if by_property.is_some() {
        return by_property;
    }
    let by_meta = find_cover_by_meta(nodes, m);
    if by_meta.is_some() {
        return by_meta;
    }
    let by_guide = find_cover_by_guide(nodes);
    if by_guide.is_some() {
        return by_guide;
    }
    find_cover_by_name(m)
}

/// What the nodes of a package document say of the book.
pub fn package_from_nodes(nodes: &Vec<XmlNode>) -> (r: Package)
    ensures
        opt_view(r.title) == trimmed_text(nodes_view(nodes@), "title"@),
        opt_view(r.author) == trimmed_text(nodes_view(nodes@), "creator"@),
        items_view(r.manifest@) == manifest_of(nodes_view(nodes@)),
        strings_view(r.spine@) == spine_of(nodes_view(nodes@)),
        cover_view(r.cover) == cover_of(nodes_view(nodes@), manifest_of(nodes_view(nodes@))),
        ids_unique(items_view(r.manifest@)),
{
    proof {
        lemma_manifest_ids_unique(nodes_view(nodes@), nodes@.len() as int);
    }
    let title = trimmed_first_text(nodes, "title");
    let author = trimmed_first_text(nodes, "creator");
    let manifest = manifest_from_nodes(nodes);
    let spine = spine_from_nodes(nodes);
    let cover = find_cover(nodes, &manifest);
    Package { title, author, manifest, spine, cover }
}

/// Parses the package document found at `opf_path`.
pub fn parse_opf(opf_xml: &str, opf_path: &str) -> (r: Result<Package, EpubError>)
    ensures
        match xml_document(opf_xml@) {
            None => r matches Err(e) && e.kind == ErrorKind::XmlParseError && e.detail@ == opf_path@,
            Some(nodes) => r matches Ok(p) && {
                &&& opt_view(p.title) == trimmed_text(nodes, "title"@)
                &&& opt_view(p.author) == trimmed_text(nodes, "creator"@)
                &&& items_view(p.manifest@) == manifest_of(nodes)
                &&& strings_view(p.spine@) == spine_of(nodes)
                &&& cover_view(p.cover) == cover_of(nodes, manifest_of(nodes))
            },
        },
{
    match parse_xml(opf_xml) {
        Some(nodes) => Ok(package_from_nodes(&nodes)),
        None => Err(EpubError::new(ErrorKind::XmlParseError, opf_path)),
    }
}

} // verus!
