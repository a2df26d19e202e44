//! EPUB archives: what the `epub` crate reads of one, and the book the
//! library assembles from it.
use crate::narration::book::{
    assemble_book, book_spec, opt_view, spine_view, strip_fragment, toc_view, without_fragment,
    Book,
};
use crate::narration::container::{epub_opens_safely, opens_safely};
use epub::doc::{EpubDoc, NavPoint};
use std::io::Cursor;
use vstd::prelude::*;
use vstd::string::StringExecFns;

verus! {

/// What the library reads of an opened EPUB: the title and creator
/// metadata, and for each spine entry in order its resource as text with its
/// MIME type (`None` when it cannot be read as text) and the path of its
/// manifest item (`None` when the manifest has no such item).
pub struct EpubParts {
    pub title: Option<String>,
    pub creator: Option<String>,
    pub spine: Vec<Option<(String, String)>>,
    pub spine_paths: Vec<Option<String>>,
}

/// The parts of an EPUB by their text.
pub struct EpubPartsView {
    pub title: Option<Seq<char>>,
    pub creator: Option<Seq<char>>,
    pub spine: Seq<Option<(Seq<char>, Seq<char>)>>,
    pub spine_paths: Seq<Option<Seq<char>>>,
}

impl View for EpubParts {
    type V = EpubPartsView;

    open spec fn view(&self) -> EpubPartsView {
        EpubPartsView {
            title: opt_view(self.title),
            creator: opt_view(self.creator),
            spine: spine_view(self.spine@),
            spine_paths: self.spine_paths@.map_values(|p: Option<String>| opt_view(p)),
        }
    }
}

/// What `EpubDoc::from_reader` reads of an archive held in `bytes`: its
/// parts, or the text of the error that refused it.
pub uninterp spec fn epub_parts_of(bytes: Seq<u8>) -> Result<EpubPartsView, Seq<char>>;

/// The table of contents of the archive in `bytes` (`EpubDoc::toc`), each
/// entry with its label, its target and the entries nested in it; empty when
/// the archive does not open.
pub uninterp spec fn epub_toc_of(bytes: Seq<u8>) -> Seq<TocTree>;

/// Whether two strings name the same path (`std::path::Path` equality,
/// which compares path components).
pub uninterp spec fn paths_equal(a: Seq<char>, b: Seq<char>) -> bool;

/// Opens an archive with `EpubDoc::from_reader` and reads its title
/// (`get_title`), creator (`mdata("creator")`), and for each spine entry its
/// resource (`get_resource_str`) and manifest path. The contract claims only
/// that the result is the one named by `epub_parts_of` for these bytes.
/// `from_reader` panics when the container names a root file path with no
/// parent directory; `requires` leaves those bytes out.
#[verifier::external_body]
fn epub_open(bytes: &[u8]) -> (r: Result<EpubParts, String>)
    requires
        epub_opens_safely(bytes@),
    ensures
        match r {
            Ok(p) => epub_parts_of(bytes@) == Ok::<EpubPartsView, Seq<char>>(p@),
            Err(e) => epub_parts_of(bytes@) == Err::<EpubPartsView, Seq<char>>(e@),
        },
{
    let mut doc = EpubDoc::from_reader(Cursor::new(bytes.to_vec())).map_err(|e| e.to_string())?;
    let ids: Vec<String> = doc.spine.iter().map(|s| s.idref.clone()).collect();
    let spine_paths = ids.iter().map(|i| doc.resources.get(i).map(|r| r.path.to_string_lossy().into_owned())).collect();
    let spine = ids.iter().map(|i| doc.get_resource_str(i)).collect();
    let creator = doc.mdata("creator").map(|m| m.value.clone());
    Ok(EpubParts { title: doc.get_title(), creator, spine, spine_paths })
}

/// An entry of a table of contents: its label, its target, and the entries
/// nested in it, in order.
#[derive(Debug)]
pub struct TocNode {
    pub label: String,
    pub target: String,
    pub children: Vec<TocNode>,
}

/// A table-of-contents entry by its text.
pub ghost struct TocTree {
    pub label: Seq<char>,
    pub target: Seq<char>,
    pub children: Seq<TocTree>,
}

/// The entries `ns[i..]` by their text.
pub open spec fn forest_view_from(ns: Seq<TocNode>, i: int) -> Seq<TocTree>
    decreases ns, ns.len() - i,
{
    if 0 <= i < ns.len() {
        proof {
            assert(decreases_to!(ns => ns[i]));
            assert(decreases_to!(ns[i] => ns[i].children));
            assert(decreases_to!(ns[i].children => ns[i].children@));
        }
        seq![
            TocTree {
                label: ns[i].label@,
                target: ns[i].target@,
                children: forest_view_from(ns[i].children@, 0),
            },
        ] + forest_view_from(ns, i + 1)
    } else {
        Seq::empty()
    }
}

/// The entries of a table of contents as `(label, target)` pairs in
/// document order: each entry, then the entries nested in it, then the
/// entries after it.
pub open spec fn preorder(ts: Seq<TocTree>) -> Seq<(Seq<char>, Seq<char>)>
    decreases ts,
{
    if ts.len() == 0 {
        Seq::empty()
    } else {
        proof {
            assert(decreases_to!(ts => ts[0]));
            assert(decreases_to!(ts[0] => ts[0].children));
        }
        seq![(ts[0].label, ts[0].target)] + preorder(ts[0].children) + preorder(ts.drop_first())
    }
}

/// A point of the `epub` crate's table of contents.
#[verifier::external_type_specification]
#[verifier::external_body]
pub struct ExNavPoint(::epub::doc::NavPoint);

/// Converts a `NavPoint` to a `TocNode` field for field (the target by
/// `to_string_lossy`), the nested points in order.
#[verifier::external_body]
fn toc_node(np: &NavPoint) -> TocNode {
    TocNode {
        label: np.label.clone(),
        target: np.content.to_string_lossy().into_owned(),
        children: np.children.iter().map(toc_node).collect(),
    }
}

/// The table of contents of an archive (`EpubDoc::toc`), each entry
/// converted by `toc_node`. The contract claims only that the result is the
/// one named by `epub_toc_of` for these bytes.
#[verifier::external_body]
fn epub_toc(bytes: &[u8]) -> (r: Vec<TocNode>)
    requires
        epub_opens_safely(bytes@),
    ensures
        forest_view_from(r@, 0) == epub_toc_of(bytes@),
{
    match EpubDoc::from_reader(Cursor::new(bytes.to_vec())) {
        Ok(doc) => doc.toc.iter().map(toc_node).collect(),
        Err(_) => Vec::new(),
    }
}

/// The `(label, target)` pairs of the entries `ns[i..]`, each followed by
/// those nested in it, appended to `out`.
fn collect_entries(ns: &Vec<TocNode>, i: usize, out: &mut Vec<(String, String)>)
    requires
        i <= ns@.len(),
    ensures
        final(out)@.map_values(|e: (String, String)| (e.0@, e.1@)) == old(out)@.map_values(
            |e: (String, String)| (e.0@, e.1@),
        ) + preorder(forest_view_from(ns@, i as int)),
    decreases ns@, ns@.len() - i,
{
    let ghost f = forest_view_from(ns@, i as int);
    if i == ns.len() {
        assert(f =~= Seq::<TocTree>::empty());
        assert(old(out)@.map_values(|e: (String, String)| (e.0@, e.1@)) + preorder(f) =~= old(out)@.map_values(
            |e: (String, String)| (e.0@, e.1@),
        ));
        return;
    }
    let ghost before = out@.map_values(|e: (String, String)| (e.0@, e.1@));
    let node = &ns[i];
    out.push((node.label.clone(), node.target.clone()));
    proof {
        assert(decreases_to!(ns@ => ns@[i as int]));
        assert(decreases_to!(ns@[i as int] => ns@[i as int].children));
        assert(decreases_to!(ns@[i as int].children => ns@[i as int].children@));
    }
    let ghost mid = out@.map_values(|e: (String, String)| (e.0@, e.1@));
    assert(mid =~= before.push((node.label@, node.target@)));
    collect_entries(&node.children, 0, out);
    let ghost mid2 = out@.map_values(|e: (String, String)| (e.0@, e.1@));
    collect_entries(ns, i + 1, out);
    proof {
        let t = TocTree {
            label: node.label@,
            target: node.target@,
            children: forest_view_from(node.children@, 0),
        };
        let rest = forest_view_from(ns@, i + 1);
        assert(f == seq![t] + rest);
        assert(f[0] == t);
        assert(f.drop_first() =~= rest);
        assert(preorder(f) == seq![(t.label, t.target)] + preorder(t.children) + preorder(rest));
        assert(out@.map_values(|e: (String, String)| (e.0@, e.1@)) =~= before + preorder(f));
    }
}

/// Compares two paths as `std::path::Path` values.
#[verifier::external_body]
fn same_path(a: &str, b: &str) -> (r: bool)
    ensures
        r == paths_equal(a@, b@),
{
    std::path::Path::new(a) == std::path::Path::new(b)
}

/// Whether spine entry `i` lies at path `uri`.
pub open spec fn path_at(paths: Seq<Option<Seq<char>>>, i: int, uri: Seq<char>) -> bool {
    match paths[i] {
        Some(p) => paths_equal(p, uri),
        None => false,
    }
}

/// The spine index of the resource at `uri`: the first spine entry whose
/// manifest path equals it.
pub open spec fn chapter_of_uri(paths: Seq<Option<Seq<char>>>, uri: Seq<char>) -> Option<nat> {
    if exists|i: int| 0 <= i < paths.len() && path_at(paths, i, uri) {
        Some(
            (choose|i: int|
                0 <= i < paths.len() && path_at(paths, i, uri) && forall|j: int|
                    0 <= j < i ==> !path_at(paths, j, uri)) as nat,
        )
    } else {
        None
    }
}

/// The table of contents as `(spine index, label)` pairs: each entry, in
/// order, whose target (without its fragment) names a spine resource.
pub open spec fn toc_chapters(
    paths: Seq<Option<Seq<char>>>,
    toc: Seq<(Seq<char>, Seq<char>)>,
) -> Seq<(nat, Seq<char>)>
    decreases toc.len(),
{
    if toc.len() == 0 {
        Seq::empty()
    } else {
        let rest = toc_chapters(paths, toc.drop_last());
        match chapter_of_uri(paths, without_fragment(toc.last().1)) {
            Some(i) => rest.push((i, toc.last().0)),
            None => rest,
        }
    }
}

fn find_chapter(paths: &Vec<Option<String>>, uri: &str) -> (r: Option<usize>)
    ensures
        match r {
            Some(i) => chapter_of_uri(paths@.map_values(|p: Option<String>| opt_view(p)), uri@)
                == Some(i as nat),
            None => chapter_of_uri(paths@.map_values(|p: Option<String>| opt_view(p)), uri@) is None,
        },
{
    let ghost pv = paths@.map_values(|p: Option<String>| opt_view(p));
    let mut i: usize = 0;
    while i < paths.len()
        invariant
            i <= paths@.len(),
            pv == paths@.map_values(|p: Option<String>| opt_view(p)),
            forall|j: int| 0 <= j < i ==> !path_at(pv, j, uri@),
        decreases paths.len() - i,
    {
        let hit = match &paths[i] {
            Some(p) => same_path(p.as_str(), uri),
            None => false,
        };
        assert(hit == path_at(pv, i as int, uri@));
        if hit {
            proof {
                let k = choose|k: int|
                    0 <= k < pv.len() && path_at(pv, k, uri@) && forall|j: int|
                        0 <= j < k ==> !path_at(pv, j, uri@);
                assert(path_at(pv, i as int, uri@));
                if k < i {
                    assert(!path_at(pv, k, uri@));
                } else if k > i {
                    assert(!path_at(pv, i as int, uri@));
                }
            }
            return Some(i);
        }
        i = i + 1;
    }
    None
}

/// Resolves each table-of-contents entry to the spine index it names,
/// keeping the entries that name one.
pub fn toc_entries(paths: &Vec<Option<String>>, toc: &Vec<(String, String)>) -> (r: Vec<(usize, String)>)
    ensures
        toc_view(r@) == toc_chapters(
            paths@.map_values(|p: Option<String>| opt_view(p)),
            toc@.map_values(|e: (String, String)| (e.0@, e.1@)),
        ),
{
    let ghost pv = paths@.map_values(|p: Option<String>| opt_view(p));
    let ghost tv = toc@.map_values(|e: (String, String)| (e.0@, e.1@));
    let mut out: Vec<(usize, String)> = Vec::new();
    let mut i: usize = 0;
    while i < toc.len()
        invariant
            i <= toc@.len(),
            pv == paths@.map_values(|p: Option<String>| opt_view(p)),
            tv == toc@.map_values(|e: (String, String)| (e.0@, e.1@)),
            toc_view(out@) == toc_chapters(pv, tv.take(i as int)),
        decreases toc.len() - i,
    {
        assert(tv.take(i + 1).drop_last() == tv.take(i as int));
        assert(tv.take(i + 1).last() == tv[i as int]);
        let uri = strip_fragment(toc[i].1.as_str());
        match find_chapter(paths, uri.as_str()) {
            Some(k) => {
                let ghost before = out@;
                out.push((k, toc[i].0.clone()));
                assert(toc_view(out@) == toc_view(before).push((k as nat, toc@[i as int].0@)));
            },
            None => {},
        }
        i = i + 1;
    }
    assert(tv.take(toc@.len() as int) == tv);
    out
}

/// Why an EPUB could not be read.
#[derive(Debug, Clone, PartialEq, Eq)]
pub enum EpubError {
    /// The archive did not open; the text is the `epub` crate's reason.
    Open(String),
}

impl EpubError {
    /// The error as the narrator reports it.
    pub fn message(&self) -> (r: String)
        ensures
            match self {
                EpubError::Open(m) => r@ == "failed to open EPUB: "@ + m@,
            },
    {
        match self {
            EpubError::Open(m) => {
                let mut s = String::from_str("failed to open EPUB: ");
                s.append(m.as_str());
                s
            },
        }
    }
}

/// Parses an EPUB held in memory: the archive is opened and read, each
/// table-of-contents entry is resolved to the spine resource it names, and
/// the book is assembled from the parts.
pub fn parse_epub_bytes(bytes: Vec<u8>) -> (r: Result<Book, EpubError>)
    requires
        epub_opens_safely(bytes@),
    ensures
        match epub_parts_of(bytes@) {
            Err(e) => r matches Err(EpubError::Open(m)) && m@ == e,
            Ok(pv) => r matches Ok(b) && book_spec(
                pv.title,
                pv.creator,
                pv.spine,
                toc_chapters(pv.spine_paths, preorder(epub_toc_of(bytes@))),
                b,
            ),
        },
{
    match epub_open(bytes.as_slice()) {
        Err(e) => Err(EpubError::Open(e)),
        Ok(parts) => {
            let tree = epub_toc(bytes.as_slice());
            let mut toc: Vec<(String, String)> = Vec::new();
            collect_entries(&tree, 0, &mut toc);
            assert(toc@.map_values(|e: (String, String)| (e.0@, e.1@)) =~= preorder(epub_toc_of(bytes@)));
            let entries = toc_entries(&parts.spine_paths, &toc);
            let EpubParts { title, creator, spine, spine_paths } = parts;
            Ok(assemble_book(title, creator, &spine, &entries))
        },
    }
}

/// Parses an EPUB held in memory, or gives `None` for an archive whose
/// container names a root file with no parent directory, on which the
/// `epub` crate stops with a panic.
pub fn parse_epub(bytes: Vec<u8>) -> (r: Option<Result<Book, EpubError>>)
    ensures
        r is None <==> !epub_opens_safely(bytes@),
        r matches Some(res) ==> match epub_parts_of(bytes@) {
            Err(e) => res matches Err(EpubError::Open(m)) && m@ == e,
            Ok(pv) => res matches Ok(b) && book_spec(
                pv.title,
                pv.creator,
                pv.spine,
                toc_chapters(pv.spine_paths, preorder(epub_toc_of(bytes@))),
                b,
            ),
        },
{
    if !opens_safely(bytes.as_slice()) {
        return None;
    }
    Some(parse_epub_bytes(bytes))
}

} // verus!
