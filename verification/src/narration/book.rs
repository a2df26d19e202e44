//! Books and chapters: plain text extracted from EPUB documents.
use crate::lines::{line_ranges, lines};
use crate::text::{
    chars_of, contains_seq, decimal, push_decimal, string_from, string_of, trim, trim_bounds,
    trim_start, vec_contains,
};
use vstd::prelude::*;
use vstd::string::StringExecFns;

verus! {

/// A single chapter extracted from an EPUB, with HTML stripped to plain text.
#[derive(Debug, Clone)]
pub struct Chapter {
    pub title: String,
    pub text: String,
}

/// A parsed EPUB book in memory.
#[derive(Debug, Clone)]
pub struct Book {
    pub title: String,
    pub creator: Option<String>,
    pub chapters: Vec<Chapter>,
}

impl Book {
    pub fn chapter_count(&self) -> (n: usize)
        ensures
            n == self.chapters@.len(),
    {
        self.chapters.len()
    }
}

/// Whether a spine resource holds HTML: its MIME type mentions `html` or
/// `xml`, or its content starts (after whitespace) with `<`.
pub open spec fn is_html_spec(content: Seq<char>, mime: Seq<char>) -> bool {
    contains_seq(mime, "html"@) || contains_seq(mime, "xml"@) || (trim_start(content).len() > 0
        && trim_start(content)[0] == '<')
}

pub fn is_html(content: &str, mime: &str) -> (r: bool)
    ensures
        r == is_html_spec(content@, mime@),
{
    let m = chars_of(mime);
    if vec_contains(&m, &chars_of("html")) || vec_contains(&m, &chars_of("xml")) {
        return true;
    }
    let c = chars_of(content);
    let (a, _b) = trim_bounds(&c, 0, c.len());
    proof {
        assert(c@.subrange(0, c@.len() as int) == c@);
    }
    a < c.len() && c[a] == '<'
}

/// Paragraph-normalized text of a sequence of lines: every line trimmed,
/// blank lines dropped, lines of one paragraph joined by `"\n"` and
/// paragraphs (runs of lines separated by at least one blank line) joined by
/// `"\n\n"`.
pub open spec fn normalize_lines(ls: Seq<Seq<char>>) -> Seq<char>
    decreases ls.len(),
{
    if ls.len() == 0 {
        Seq::empty()
    } else {
        let rest = ls.drop_last();
        let t = trim(ls.last());
        let prev = normalize_lines(rest);
        if t.len() == 0 {
            prev
        } else if prev.len() == 0 {
            t
        } else if trim(rest.last()).len() == 0 {
            prev + seq!['\n', '\n'] + t
        } else {
            prev + seq!['\n'] + t
        }
    }
}

/// The normalized text of `text` (its lines, as `str::lines` gives them).
pub open spec fn normalize_spec(text: Seq<char>) -> Seq<char> {
    normalize_lines(lines(text))
}

pub proof fn lemma_trim_ends(t: Seq<char>)
    requires
        t.len() > 0,
        t == trim(t),
    ensures
        !crate::text::is_ws(t[0]),
        !crate::text::is_ws(t.last()),
{
    crate::text::lemma_lead_ws_bound(t);
    let s = crate::text::trim_start(t);
    crate::text::lemma_trail_ws_bound(s);
    if crate::text::is_ws(t[0]) {
        assert(crate::text::lead_ws(t) >= 1);
        assert(trim(t).len() < t.len());
    }
    if crate::text::is_ws(t.last()) {
        if crate::text::lead_ws(t) == 0 {
            assert(s == t);
            assert(crate::text::trail_ws(s) >= 1);
        }
        assert(trim(t).len() < t.len());
    }
}

/// Trim every line and collapse runs of blank lines into a single blank line
/// (paragraph separator).
pub fn normalize_text(text: &str) -> (r: String)
    ensures
        r@ == normalize_spec(text@),
{
    let v = chars_of(text);
    let ranges = line_ranges(&v);
    let ghost ls = lines(v@);
    let mut out: Vec<char> = Vec::new();
    let mut pending = false;
    let mut i: usize = 0;
    while i < ranges.len()
        invariant
            0 <= i <= ranges@.len(),
            ranges@.len() == ls.len(),
            ls == lines(v@),
            forall|k: int|
                #![trigger ranges@[k]] 0 <= k < ranges@.len() ==> ranges@[k].0 <= ranges@[k].1 <= v@.len()
                    && v@.subrange(ranges@[k].0 as int, ranges@[k].1 as int) == ls[k],
            out@ == normalize_lines(ls.take(i as int)),
            pending == (out@.len() > 0 && i > 0 && trim(ls[i - 1]).len() == 0),
        decreases ranges.len() - i,
    {
        let (lo, hi) = ranges[i];
        let (a, b) = trim_bounds(&v, lo, hi);
        let ghost t = trim(ls[i as int]);
        assert(ls.take(i + 1).drop_last() == ls.take(i as int));
        assert(ls.take(i + 1).last() == ls[i as int]);
        if a == b {
            if out.len() > 0 {
                pending = true;
            }
        } else {
            let ghost prev = out@;
            if pending {
                out.push('\n');
                out.push('\n');
                assert(out@ == prev + seq!['\n', '\n']);
                pending = false;
            } else if out.len() > 0 {
                out.push('\n');
                assert(out@ == prev + seq!['\n']);
                proof {
                    if i > 0 {
                        assert(ls.take(i as int).last() == ls[i - 1]);
                    }
                }
            }
            let ghost mid = out@;
            let mut j = a;
            while j < b
                invariant
                    a <= j <= b <= v@.len(),
                    out@ == mid + v@.subrange(a as int, j as int),
                decreases b - j,
            {
                out.push(v[j]);
                assert(v@.subrange(a as int, j + 1) == v@.subrange(a as int, j as int).push(
                    v@[j as int],
                ));
                j = j + 1;
            }
            proof {
                if i > 0 {
                    assert(ls.take(i as int).last() == ls[i - 1]);
                }
            }
        }
        i = i + 1;
    }
    proof {
        assert(ls.take(ls.len() as int) == ls);
        lemma_normalized_is_trimmed(ls);
    }
    string_from(&out)
}

/// A normalized text is its own trim: it neither starts nor ends with
/// whitespace, so the final `trim` of the normalization changes nothing.
pub proof fn lemma_normalized_is_trimmed(ls: Seq<Seq<char>>)
    ensures
        normalize_lines(ls).len() > 0 ==> !crate::text::is_ws(normalize_lines(ls)[0])
            && !crate::text::is_ws(normalize_lines(ls).last()),
    decreases ls.len(),
{
    if ls.len() > 0 {
        let rest = ls.drop_last();
        lemma_normalized_is_trimmed(rest);
        let t = trim(ls.last());
        if t.len() > 0 {
            lemma_trim_idempotent(ls.last());
            lemma_trim_ends(t);
        }
    }
}

pub proof fn lemma_trim_idempotent(s: Seq<char>)
    ensures
        trim(trim(s)) == trim(s),
{
    let t = trim(s);
    crate::text::lemma_lead_ws_bound(s);
    let a = crate::text::trim_start(s);
    crate::text::lemma_trail_ws_bound(a);
    if t.len() > 0 {
        // t starts with a non-whitespace character and ends with one
        let k = crate::text::lead_ws(s) as int;
        assert(!crate::text::is_ws(s[k])) by {
            lemma_lead_ws_stops(s);
        }
        assert(t[0] == s[k]);
        let m = crate::text::trail_ws(a) as int;
        assert(!crate::text::is_ws(a[a.len() - m - 1])) by {
            lemma_trail_ws_stops(a);
        }
        assert(t.last() == a[a.len() - m - 1]);
        crate::text::lemma_lead_ws(t, 0);
        assert(crate::text::trim_start(t) == t);
        crate::text::lemma_trail_ws(t, 0);
        assert(crate::text::trim_end(t) == t);
    } else {
        crate::text::lemma_lead_ws(t, 0);
        crate::text::lemma_trail_ws(t, 0);
        assert(trim(t) =~= t);
    }
}

proof fn lemma_lead_ws_stops(s: Seq<char>)
    requires
        crate::text::lead_ws(s) < s.len(),
    ensures
        !crate::text::is_ws(s[crate::text::lead_ws(s) as int]),
    decreases s.len(),
{
    if s.len() > 0 && crate::text::is_ws(s[0]) {
        lemma_lead_ws_stops(s.drop_first());
    }
}

proof fn lemma_trail_ws_stops(s: Seq<char>)
    requires
        crate::text::trail_ws(s) < s.len(),
    ensures
        !crate::text::is_ws(s[s.len() - crate::text::trail_ws(s) - 1]),
    decreases s.len(),
{
    if s.len() > 0 && crate::text::is_ws(s.last()) {
        lemma_trail_ws_stops(s.drop_last());
    }
}

/// The first non-blank line of `ls`, trimmed.
pub open spec fn first_heading(ls: Seq<Seq<char>>) -> Option<Seq<char>>
    decreases ls.len(),
{
    if ls.len() == 0 {
        None
    } else if trim(ls[0]).len() > 0 {
        Some(trim(ls[0]))
    } else {
        first_heading(ls.drop_first())
    }
}

/// The title of the chapter at 0-based `idx` with text `text` when the table
/// of contents has none: the first non-blank line if it has at most 100
/// characters, otherwise `"Chapter N"` with `N = idx + 1`.
pub open spec fn fallback_title_spec(idx: nat, text: Seq<char>) -> Seq<char> {
    match first_heading(lines(text)) {
        Some(h) if h.len() <= 100 => h,
        _ => "Chapter "@ + decimal(idx + 1),
    }
}

/// Bounds of the first non-blank line of `v`, trimmed.
fn first_heading_bounds(v: &Vec<char>) -> (r: Option<(usize, usize)>)
    ensures
        match r {
            Some((a, b)) => a <= b <= v@.len() && first_heading(lines(v@)) == Some(
                v@.subrange(a as int, b as int),
            ),
            None => first_heading(lines(v@)) is None,
        },
{
    let ranges = line_ranges(v);
    let ghost ls = lines(v@);
    let mut i: usize = 0;
    assert(ls.skip(0) == ls);
    while i < ranges.len()
        invariant
            0 <= i <= ranges@.len(),
            ranges@.len() == ls.len(),
            ls == lines(v@),
            forall|k: int|
                #![trigger ranges@[k]] 0 <= k < ranges@.len() ==> ranges@[k].0 <= ranges@[k].1 <= v@.len()
                    && v@.subrange(ranges@[k].0 as int, ranges@[k].1 as int) == ls[k],
            first_heading(ls) == first_heading(ls.skip(i as int)),
        decreases ranges.len() - i,
    {
        let (lo, hi) = ranges[i];
        let (a, b) = trim_bounds(v, lo, hi);
        let ghost s = ls.skip(i as int);
        assert(s[0] == ls[i as int]);
        if a < b {
            return Some((a, b));
        }
        assert(s.drop_first() == ls.skip(i + 1));
        i = i + 1;
    }
    None
}

/// Derive a chapter title when the TOC has no entry: use the first line of
/// text if it looks like a heading, otherwise "Chapter N".
pub fn fallback_title(idx: usize, text: &str) -> (r: String)
    requires
        idx < usize::MAX,
    ensures
        r@ == fallback_title_spec(idx as nat, text@),
{
    let v = chars_of(text);
    if let Some((a, b)) = first_heading_bounds(&v) {
        if b - a <= 100 {
            return string_of(&v, a, b);
        }
    }
    let mut out = chars_of("Chapter ");
    push_decimal(&mut out, (idx + 1) as u64);
    string_from(&out)
}

/// Lines made only of whitespace hold no heading.
proof fn lemma_first_heading_blank(ls: Seq<Seq<char>>)
    requires
        forall|i: int, j: int| 0 <= i < ls.len() && 0 <= j < ls[i].len() ==> crate::text::is_ws(#[trigger] ls[i][j]),
    ensures
        first_heading(ls) is None,
    decreases ls.len(),
{
    if ls.len() > 0 {
        let l = ls[0];
        assert forall|j: int| 0 <= j < l.len() implies crate::text::is_ws(#[trigger] l[j]) by {
            assert(ls[0][j] == l[j]);
        }
        crate::text::lemma_lead_ws(l, l.len() as int);
        assert(trim_start(l) =~= Seq::<char>::empty());
        assert(trim(l) =~= Seq::<char>::empty());
        assert forall|i: int, j: int|
            0 <= i < ls.drop_first().len() && 0 <= j < ls.drop_first()[i].len() implies crate::text::is_ws(
            #[trigger] ls.drop_first()[i][j],
        ) by {
            assert(ls.drop_first()[i] == ls[i + 1]);
        }
        lemma_first_heading_blank(ls.drop_first());
    }
}

/// A chapter without a table-of-contents entry is titled by the line it
/// begins with, when that line has at most 100 characters, and is called
/// `"Chapter N"` (`N` its 1-based number) otherwise.
pub proof fn law_fallback_title_heading(idx: nat, h: Seq<char>, rest: Seq<char>)
    requires
        h.len() > 0,
        !crate::text::is_ws(h[0]),
        !crate::text::is_ws(h.last()),
        forall|j: int| 0 <= j < h.len() ==> #[trigger] h[j] != '\n',
        rest.len() == 0 || rest[0] == '\n',
    ensures
        fallback_title_spec(idx, h + rest) == if h.len() <= 100 {
            h
        } else {
            "Chapter "@ + decimal(idx + 1)
        },
{
    crate::lines::lemma_lines_first(h, rest);
    crate::text::lemma_trim_solid(h);
}

/// A chapter whose text is blank is called `"Chapter N"`, `N` being its
/// 1-based number.
pub proof fn law_fallback_title_blank(idx: nat, text: Seq<char>)
    requires
        forall|k: int| 0 <= k < text.len() ==> crate::text::is_ws(#[trigger] text[k]),
    ensures
        fallback_title_spec(idx, text) == "Chapter "@ + decimal(idx + 1),
{
    let f = |c: char| crate::text::is_ws(c);
    assert forall|k: int| 0 <= k < text.len() implies f(#[trigger] text[k]) by {}
    crate::lines::lemma_split_nl_keeps(text, f);
    let p = crate::lines::split_nl(text);
    let ls = lines(text);
    crate::lines::lemma_split_nl_nonempty(text);
    assert(ls.len() <= p.len());
    assert forall|i: int, j: int| 0 <= i < ls.len() && 0 <= j < ls[i].len() implies crate::text::is_ws(
        #[trigger] ls[i][j],
    ) by {
        if p.last().len() == 0 {
            assert(ls == p.drop_last());
        }
        assert(ls[i] == p[i]);
        assert(f(p[i][j]));
    }
    lemma_first_heading_blank(ls);
}

/// Plain text that `html2text` renders (plain decorator) from `html` at
/// `width` columns, or `None` when rendering fails.
pub uninterp spec fn html_plain_text(html: Seq<char>, width: nat) -> Option<Seq<char>>;

/// Renders HTML to plain text with `html2text`'s plain configuration
/// (`Config::string_from_read`). The contract claims only that the result
/// is the rendering named by `html_plain_text` for these arguments.
/// `html2text` walks the document tree with an explicit stack, but it sizes
/// table cells recursively (`calc_size_estimate`), so tables nested deeply
/// enough can exhaust the stack; no condition over the text short of parsing
/// it says how deep, and none is required here. The `panic!` in its
/// table-cell renderer is not reached: it is applied to the children that a
/// table row yields, which are only cells.
#[verifier::external_body]
fn render_plain(html: &str, width: usize) -> (r: Option<String>)
    ensures
        match r {
            Some(t) => html_plain_text(html@, width as nat) == Some(t@),
            None => html_plain_text(html@, width as nat) is None,
        },
{
    html2text::config::plain().string_from_read(html.as_bytes(), width).ok()
}

/// The chapter text of an HTML resource: rendered at 120 columns (nothing
/// when rendering fails), then normalized.
pub open spec fn html_to_text_spec(html: Seq<char>) -> Seq<char> {
    match html_plain_text(html, 120) {
        Some(t) => normalize_spec(t),
        None => Seq::empty(),
    }
}

/// Convert chapter HTML to plain text, collapsing blank runs.
pub fn html_to_text(html: &str) -> (r: String)
    ensures
        r@ == html_to_text_spec(html@),
{
    match render_plain(html, 120) {
        Some(t) => normalize_text(t.as_str()),
        None => String::new(),
    }
}

/// An optional string by its text.
pub open spec fn opt_view(o: Option<String>) -> Option<Seq<char>> {
    match o {
        Some(s) => Some(s@),
        None => None,
    }
}

/// A spine resource, content and MIME type, by their text.
pub open spec fn resource_view(r: Option<(String, String)>) -> Option<(Seq<char>, Seq<char>)> {
    match r {
        Some((c, m)) => Some((c@, m@)),
        None => None,
    }
}

/// The spine resources by their text.
pub open spec fn spine_view(spine: Seq<Option<(String, String)>>) -> Seq<
    Option<(Seq<char>, Seq<char>)>,
> {
    spine.map_values(|r: Option<(String, String)>| resource_view(r))
}

/// Table-of-contents entries `(spine index, label)` by their values.
pub open spec fn toc_view(toc: Seq<(usize, String)>) -> Seq<(nat, Seq<char>)> {
    toc.map_values(|e: (usize, String)| (e.0 as nat, e.1@))
}

/// The title that the table of contents gives spine index `idx`: the label
/// of the first entry (in document order) that points to it.
pub open spec fn toc_title(toc: Seq<(nat, Seq<char>)>, idx: nat) -> Option<Seq<char>>
    decreases toc.len(),
{
    if toc.len() == 0 {
        None
    } else if toc[0].0 == idx {
        Some(toc[0].1)
    } else {
        toc_title(toc.drop_first(), idx)
    }
}

/// The text of a spine resource: its HTML converted to text when it is HTML,
/// otherwise nothing.
pub open spec fn resource_text(res: Option<(Seq<char>, Seq<char>)>) -> Seq<char> {
    match res {
        Some((content, mime)) => if is_html_spec(content, mime) {
            html_to_text_spec(content)
        } else {
            Seq::empty()
        },
        None => Seq::empty(),
    }
}

/// The book assembled from a document's parts: its title (`"Untitled"` when
/// it has none), its creator, and one chapter per spine resource, titled from
/// the table of contents or else by `fallback_title`.
pub open spec fn book_spec(
    title: Option<Seq<char>>,
    creator: Option<Seq<char>>,
    spine: Seq<Option<(Seq<char>, Seq<char>)>>,
    toc: Seq<(nat, Seq<char>)>,
    b: Book,
) -> bool {
    &&& b.title@ == (match title {
        Some(t) => t,
        None => "Untitled"@,
    })
    &&& opt_view(b.creator) == creator
    &&& b.chapters@.len() == spine.len()
    &&& forall|i: int|
        #![trigger b.chapters@[i]]
        0 <= i < spine.len() ==> {
            &&& b.chapters@[i].text@ == resource_text(spine[i])
            &&& b.chapters@[i].title@ == (match toc_title(toc, i as nat) {
                Some(t) => t,
                None => fallback_title_spec(i as nat, resource_text(spine[i])),
            })
        }
}

/// A table-of-contents target without its fragment: everything before the
/// first `#`.
pub open spec fn without_fragment(s: Seq<char>) -> Seq<char> {
    if exists|i: int| 0 <= i < s.len() && s[i] == '#' {
        s.take(choose|i: int| 0 <= i < s.len() && s[i] == '#' && forall|j: int| 0 <= j < i ==> s[j] != '#')
    } else {
        s
    }
}

/// The part of a table-of-contents target before its fragment, which names
/// the chapter's resource.
pub fn strip_fragment(target: &str) -> (r: String)
    ensures
        r@ == without_fragment(target@),
{
    let v = chars_of(target);
    let mut i: usize = 0;
    while i < v.len()
        invariant
            i <= v@.len(),
            v@ == target@,
            forall|j: int| 0 <= j < i ==> v@[j] != '#',
        decreases v.len() - i,
    {
        if v[i] == '#' {
            proof {
                let k = choose|k: int| 0 <= k < v@.len() && v@[k] == '#' && forall|j: int| 0 <= j < k ==> v@[j] != '#';
                assert(v@[i as int] == '#' && forall|j: int| 0 <= j < i ==> v@[j] != '#');
                if k < i {
                    assert(v@[k] != '#');
                } else if k > i {
                    assert(v@[i as int] != '#');
                }
            }
            return string_of(&v, 0, i);
        }
        i = i + 1;
    }
    assert(v@.subrange(0, v@.len() as int) =~= v@);
    string_of(&v, 0, v.len())
}

fn find_toc_title(toc: &Vec<(usize, String)>, idx: usize) -> (r: Option<String>)
    ensures
        match r {
            Some(t) => toc_title(toc_view(toc@), idx as nat) == Some(t@),
            None => toc_title(toc_view(toc@), idx as nat) is None,
        },
{
    let ghost tv = toc_view(toc@);
    let mut i: usize = 0;
    assert(tv.skip(0) == tv);
    while i < toc.len()
        invariant
            0 <= i <= toc@.len(),
            tv == toc_view(toc@),
            toc_title(tv, idx as nat) == toc_title(tv.skip(i as int), idx as nat),
        decreases toc.len() - i,
    {
        assert(tv.skip(i as int)[0] == tv[i as int]);
        if toc[i].0 == idx {
            return Some(toc[i].1.clone());
        }
        assert(tv.skip(i as int).drop_first() == tv.skip(i + 1));
        i = i + 1;
    }
    None
}

/// Assemble a book from the parts of an EPUB document: its title and
/// creator, the content and MIME type of each spine resource (`None` when the
/// resource could not be read as text), and the table of contents flattened
/// in document order to `(spine index, label)` pairs.
pub fn assemble_book(
    title: Option<String>,
    creator: Option<String>,
    spine: &Vec<Option<(String, String)>>,
    toc: &Vec<(usize, String)>,
) -> (b: Book)
    ensures
        book_spec(opt_view(title), opt_view(creator), spine_view(spine@), toc_view(toc@), b),
{
    let t = match title {
        Some(t) => t,
        None => String::from_str("Untitled"),
    };
    let mut chapters: Vec<Chapter> = Vec::new();
    let mut i: usize = 0;
    while i < spine.len()
        invariant
            0 <= i <= spine@.len(),
            chapters@.len() == i,
            forall|j: int|
                #![trigger chapters@[j]]
                0 <= j < i ==> {
                    &&& chapters@[j].text@ == resource_text(resource_view(spine@[j]))
                    &&& chapters@[j].title@ == (match toc_title(toc_view(toc@), j as nat) {
                        Some(t) => t,
                        None => fallback_title_spec(j as nat, resource_text(resource_view(spine@[j]))),
                    })
                },
        decreases spine.len() - i,
    {
        let text = match &spine[i] {
            Some((content, mime)) => if is_html(content.as_str(), mime.as_str()) {
                html_to_text(content.as_str())
            } else {
                String::new()
            },
            None => String::new(),
        };
        let ctitle = match find_toc_title(toc, i) {
            Some(ct) => ct,
            None => fallback_title(i, text.as_str()),
        };
        chapters.push(Chapter { title: ctitle, text });
        i = i + 1;
    }
    let b = Book { title: t, creator, chapters };
    assert(spine_view(spine@).len() == spine@.len());
    assert forall|j: int| 0 <= j < spine@.len() implies #[trigger] spine_view(spine@)[j] == resource_view(spine@[j]) by {}
    b
}

} // verus!
