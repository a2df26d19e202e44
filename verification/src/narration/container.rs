//! The root file an EPUB's container names (`META-INF/container.xml`), read
//! as the `epub` crate reads it when it opens an archive. The crate stops
//! with a panic when that path has no parent directory, so the library
//! looks at the path before it asks the crate to open the archive.
use std::io::Cursor;
use vstd::prelude::*;
use vstd::string::StringSliceAdditionalSpecFns;
use vstd::utf8::encode_utf8;

verus! {

/// An XML event as the library reads it: the start of an element, with its
/// local name and its attributes (local name, value) in order; the end of
/// an element; anything else.
#[derive(Debug)]
pub enum XmlEvent {
    Start { name: String, attrs: Vec<(String, String)> },
    End,
    Other,
}

/// An XML event by its text.
pub ghost enum XmlEventView {
    Start { name: Seq<char>, attrs: Seq<(Seq<char>, Seq<char>)> },
    End,
    Other,
}

impl View for XmlEvent {
    type V = XmlEventView;

    open spec fn view(&self) -> XmlEventView {
        match self {
            XmlEvent::Start { name, attrs } => XmlEventView::Start {
                name: name@,
                attrs: attrs_view(attrs@),
            },
            XmlEvent::End => XmlEventView::End,
            XmlEvent::Other => XmlEventView::Other,
        }
    }
}

/// Attributes by their text.
pub open spec fn attrs_view(attrs: Seq<(String, String)>) -> Seq<(Seq<char>, Seq<char>)> {
    attrs.map_values(|a: (String, String)| (a.0@, a.1@))
}

/// Events by their text.
pub open spec fn events_view(es: Seq<XmlEvent>) -> Seq<XmlEventView> {
    es.map_values(|e: XmlEvent| e@)
}

/// The container file (`META-INF/container.xml`) of the archive in `bytes`,
/// as `EpubArchive::get_container_file` reads it; `None` when the archive
/// or the file cannot be read.
pub uninterp spec fn epub_container_of(bytes: Seq<u8>) -> Option<Seq<u8>>;

/// The events that the `xml` crate's reader reads from `text`, configured as
/// the `epub` crate configures it (the entities `nbsp`, `copy` and `reg`
/// added), up to the end of the document or the first error.
pub uninterp spec fn xml_events_of(text: Seq<u8>) -> Seq<XmlEventView>;

/// `String::from_utf16_lossy` of some UTF-16 code units.
pub uninterp spec fn utf16_lossy_of(units: Seq<u16>) -> Seq<char>;

/// Whether `std::path::Path::parent` gives a parent for the path `p`.
pub uninterp spec fn path_has_parent(p: Seq<char>) -> bool;

/// Reads the container file of an archive with `EpubArchive::from_reader`
/// and `get_container_file`. The contract claims only that the result is
/// the one named by `epub_container_of` for these bytes.
#[verifier::external_body]
fn epub_container(bytes: &[u8]) -> (r: Option<Vec<u8>>)
    ensures
        match r {
            Some(c) => epub_container_of(bytes@) == Some(c@),
            None => epub_container_of(bytes@) is None,
        },
{
    let mut archive = epub::archive::EpubArchive::from_reader(Cursor::new(bytes.to_vec())).ok()?;
    archive.get_container_file().ok()
}

/// The events of `text` read with the `xml` crate's `EventReader`, each
/// converted to an `XmlEvent`. The contract claims only that the result is
/// the one named by `xml_events_of` for this text.
#[verifier::external_body]
fn xml_events(text: &[u8]) -> (r: Vec<XmlEvent>)
    ensures
        events_view(r@) == xml_events_of(text@),
{
    let config = xml::ParserConfig::new().add_entity("nbsp", " ").add_entity("copy", "©").add_entity("reg", "®");
    config.create_reader(text).into_iter().map(|e| match e {
        Ok(xml::reader::XmlEvent::StartElement { name, attributes, .. }) => XmlEvent::Start {
            name: name.local_name,
            attrs: attributes.into_iter().map(|a| (a.name.local_name, a.value)).collect(),
        },
        Ok(xml::reader::XmlEvent::EndElement { .. }) => XmlEvent::End,
        _ => XmlEvent::Other,
    }).collect()
}

/// `String::from_utf16_lossy`: the contract claims only that the result is
/// the text named by `utf16_lossy_of`.
#[verifier::external_body]
fn utf16_lossy(units: &[u16]) -> (r: String)
    ensures
        r@ == utf16_lossy_of(units@),
{
    String::from_utf16_lossy(units)
}

/// `std::path::Path::parent(p).is_some()`: the contract claims only that the
/// result is the one named by `path_has_parent`.
#[verifier::external_body]
fn has_parent(p: &str) -> (r: bool)
    ensures
        r == path_has_parent(p@),
{
    std::path::Path::new(p).parent().is_some()
}

/// The UTF-16 code units after a byte-order mark, two bytes each, big-endian
/// after `FE FF` and little-endian otherwise (how the `epub` crate decodes
/// them on a little-endian machine).
pub open spec fn utf16_units(c: Seq<u8>) -> Seq<u16>
    recommends
        c.len() >= 2,
{
    Seq::new(
        ((c.len() - 2) / 2) as nat,
        |k: int|
            if c[0] == 0xfe {
                (c[2 + 2 * k] * 256 + c[3 + 2 * k]) as u16
            } else {
                (c[3 + 2 * k] * 256 + c[2 + 2 * k]) as u16
            },
    )
}

/// The text the `epub` crate hands its XML reader for a container file: no
/// text at all below four bytes; without a UTF-8 byte-order mark; decoded
/// from UTF-16 after a UTF-16 one; else the bytes as they are.
pub open spec fn container_text(c: Seq<u8>) -> Option<Seq<u8>> {
    if c.len() < 4 {
        None
    } else if c[0] == 0xef && c[1] == 0xbb && c[2] == 0xbf {
        Some(c.skip(3))
    } else if (c[0] == 0xfe && c[1] == 0xff) || (c[0] == 0xff && c[1] == 0xfe) {
        Some(encode_utf8(utf16_lossy_of(utf16_units(c))))
    } else {
        Some(c)
    }
}

/// The value of the first attribute named `key`.
pub open spec fn first_attr(attrs: Seq<(Seq<char>, Seq<char>)>, key: Seq<char>) -> Option<Seq<char>>
    decreases attrs.len(),
{
    if attrs.len() == 0 {
        None
    } else if attrs[0].0 == key {
        Some(attrs[0].1)
    } else {
        first_attr(attrs.drop_first(), key)
    }
}

/// Where a reading of the container stands: before the document's element
/// (phase 0); inside it at some depth (phase 1); after its end (phase 2);
/// with the `full-path` attribute of the first `rootfile` element inside it,
/// once one was seen.
pub type ScanView = (nat, nat, Option<Option<Seq<char>>>);

/// One event of the reading.
pub open spec fn scan_step(st: ScanView, ev: XmlEventView) -> ScanView {
    if st.0 == 0 {
        if ev is Start {
            (1, 1, None)
        } else {
            st
        }
    } else if st.0 == 1 {
        match ev {
            XmlEventView::Start { name, attrs } => (
                1,
                st.1 + 1,
                if st.2 is None && name == "rootfile"@ {
                    Some(first_attr(attrs, "full-path"@))
                } else {
                    st.2
                },
            ),
            XmlEventView::End => if st.1 <= 1 {
                (2, 0, st.2)
            } else {
                (1, (st.1 - 1) as nat, st.2)
            },
            XmlEventView::Other => st,
        }
    } else {
        st
    }
}

/// The reading after some events.
pub open spec fn scan(es: Seq<XmlEventView>) -> ScanView
    decreases es.len(),
{
    if es.len() == 0 {
        (0, 0, None)
    } else {
        scan_step(scan(es.drop_last()), es.last())
    }
}

/// The root file path the `epub` crate takes from a container's events: the
/// `full-path` of the first `rootfile` element inside the document's
/// element, when that element is closed; otherwise none (the crate then
/// refuses the archive).
pub open spec fn root_file_of(es: Seq<XmlEventView>) -> Option<Seq<char>> {
    let st = scan(es);
    if st.0 == 2 {
        match st.2 {
            Some(Some(p)) => Some(p),
            _ => None,
        }
    } else {
        None
    }
}

/// The root file path that opening the archive in `bytes` reads, if it gets
/// that far.
pub open spec fn epub_root_file(bytes: Seq<u8>) -> Option<Seq<char>> {
    match epub_container_of(bytes) {
        Some(c) => match container_text(c) {
            Some(t) => root_file_of(xml_events_of(t)),
            None => None,
        },
        None => None,
    }
}

/// Whether the `epub` crate opens the archive in `bytes` without stopping
/// on a root file path that has no parent.
pub open spec fn epub_opens_safely(bytes: Seq<u8>) -> bool {
    match epub_root_file(bytes) {
        Some(p) => path_has_parent(p),
        None => true,
    }
}

fn text_for_xml(c: &Vec<u8>) -> (r: Option<Vec<u8>>)
    ensures
        match r {
            Some(t) => container_text(c@) == Some(t@),
            None => container_text(c@) is None,
        },
{
    if c.len() < 4 {
        return None;
    }
    if c[0] == 0xef && c[1] == 0xbb && c[2] == 0xbf {
        let mut t: Vec<u8> = Vec::new();
        let mut i: usize = 3;
        while i < c.len()
            invariant
                3 <= i <= c@.len(),
                t@ == c@.subrange(3, i as int),
            decreases c.len() - i,
        {
            t.push(c[i]);
            assert(c@.subrange(3, i + 1) == c@.subrange(3, i as int).push(c@[i as int]));
            i = i + 1;
        }
        assert(c@.skip(3) == c@.subrange(3, c@.len() as int));
        return Some(t);
    }
    if (c[0] == 0xfe && c[1] == 0xff) || (c[0] == 0xff && c[1] == 0xfe) {
        let big = c[0] == 0xfe;
        let ghost n = (c@.len() - 2) / 2;
        let mut units: Vec<u16> = Vec::new();
        let mut j: usize = 2;
        while j + 1 < c.len()
            invariant
                2 <= j <= c@.len(),
                c@.len() >= 4,
                j == 2 + 2 * units@.len(),
                n == (c@.len() - 2) / 2,
                big == (c@[0] == 0xfe),
                units@.len() <= n,
                forall|m: int| 0 <= m < units@.len() ==> #[trigger] units@[m] == utf16_units(c@)[m],
            decreases c.len() - j,
        {
            let a = c[j] as u16;
            let b = c[j + 1] as u16;
            let u = if big {
                a * 256 + b
            } else {
                b * 256 + a
            };
            proof {
                let k = units@.len() as int;
                assert(k < n) by (nonlinear_arith)
                    requires
                        j == 2 + 2 * k,
                        j + 1 < c@.len(),
                        n == (c@.len() - 2) / 2,
                ;
                assert(utf16_units(c@)[k] == u);
            }
            units.push(u);
            j = j + 2;
        }
        proof {
            assert(units@.len() == n) by (nonlinear_arith)
                requires
                    j == 2 + 2 * units@.len(),
                    j + 1 >= c@.len(),
                    j <= c@.len(),
                    units@.len() <= n,
                    n == (c@.len() - 2) / 2,
                    c@.len() >= 4,
            ;
        }
        assert(units@ == utf16_units(c@));
        let text = utf16_lossy(units.as_slice());
        let bytes = text.as_str().as_bytes();
        let mut t: Vec<u8> = Vec::new();
        let mut i: usize = 0;
        while i < bytes.len()
            invariant
                i <= bytes@.len(),
                t@ == bytes@.take(i as int),
            decreases bytes.len() - i,
        {
            t.push(bytes[i]);
            assert(bytes@.take(i + 1) == bytes@.take(i as int).push(bytes@[i as int]));
            i = i + 1;
        }
        assert(bytes@.take(bytes@.len() as int) == bytes@);
        return Some(t);
    }
    Some(c.clone())
}

fn first_attr_value(attrs: &Vec<(String, String)>, key: &str) -> (r: Option<String>)
    ensures
        match r {
            Some(v) => first_attr(attrs_view(attrs@), key@) == Some(v@),
            None => first_attr(attrs_view(attrs@), key@) is None,
        },
{
    let ghost av = attrs_view(attrs@);
    let mut i: usize = 0;
    assert(av.skip(0) == av);
    while i < attrs.len()
        invariant
            i <= attrs@.len(),
            av == attrs_view(attrs@),
            first_attr(av, key@) == first_attr(av.skip(i as int), key@),
        decreases attrs.len() - i,
    {
        assert(av.skip(i as int)[0] == av[i as int]);
        if crate::text::str_eq(attrs[i].0.as_str(), key) {
            return Some(attrs[i].1.clone());
        }
        assert(av.skip(i as int).drop_first() == av.skip(i + 1));
        i = i + 1;
    }
    None
}

fn find_root_file(es: &Vec<XmlEvent>) -> (r: Option<String>)
    ensures
        match r {
            Some(p) => root_file_of(events_view(es@)) == Some(p@),
            None => root_file_of(events_view(es@)) is None,
        },
{
    proof {
        reveal_strlit("rootfile");
        reveal_strlit("full-path");
    }
    let ghost ev = events_view(es@);
    let mut phase: u8 = 0;
    let mut depth: usize = 0;
    let mut found: Option<Option<String>> = None;
    let mut i: usize = 0;
    assert(ev.take(0) =~= Seq::<XmlEventView>::empty());
    while i < es.len()
        invariant
            i <= es@.len(),
            ev == events_view(es@),
            depth <= i,
            phase <= 2,
            phase == 0 ==> found is None,
            scan(ev.take(i as int)) == (phase as nat, depth as nat, match found {
                Some(Some(p)) => Some(Some(p@)),
                Some(None) => Some(None::<Seq<char>>),
                None => None::<Option<Seq<char>>>,
            }),
        decreases es.len() - i,
    {
        assert(ev.take(i + 1).drop_last() =~= ev.take(i as int));
        assert(ev.take(i + 1).last() == es@[i as int]@);
        assert(scan(ev.take(i + 1)) == scan_step(scan(ev.take(i as int)), es@[i as int]@));
        let ghost st = scan(ev.take(i as int));
        let ghost e = es@[i as int]@;
        if phase == 0 {
            if let XmlEvent::Start { .. } = &es[i] {
                phase = 1;
                depth = 1;
            }
        } else if phase == 1 {
            match &es[i] {
                XmlEvent::Start { name, attrs } => {
                    assert(e == XmlEventView::Start { name: name@, attrs: attrs_view(attrs@) });
                    depth = depth + 1;
                    if found.is_none() && crate::text::str_eq(name.as_str(), "rootfile") {
                        let v = first_attr_value(attrs, "full-path");
                        found = Some(v);
                    }
                },
                XmlEvent::End => {
                    if depth <= 1 {
                        phase = 2;
                        depth = 0;
                    } else {
                        depth = depth - 1;
                    }
                },
                XmlEvent::Other => {},
            }
        }
        i = i + 1;
    }
    assert(ev.take(es@.len() as int) =~= ev);
    if phase == 2 {
        match found {
            Some(Some(p)) => Some(p),
            _ => None,
        }
    } else {
        None
    }
}

/// Whether the `epub` crate opens the archive in `bytes` without stopping
/// on a root file path with no parent directory (`epub_opens_safely`).
pub fn opens_safely(bytes: &[u8]) -> (r: bool)
    ensures
        r == epub_opens_safely(bytes@),
{
    let c = match epub_container(bytes) {
        Some(c) => c,
        None => return true,
    };
    let t = match text_for_xml(&c) {
        Some(t) => t,
        None => return true,
    };
    let es = xml_events(t.as_slice());
    match find_root_file(&es) {
        Some(p) => has_parent(p.as_str()),
        None => true,
    }
}

} // verus!
