//! Directory listings: entries ordered directories first, then by name, and
//! rendered as an HTML page.
use vstd::prelude::*;
use vstd::seq_lib::*;

use crate::response::Response;
use crate::router::Router;
use crate::text::{decimal, eq_str, push_decimal, rfind_char, substring};
use crate::version::Version;

verus! {

/// One directory entry as the server found it.
#[derive(Debug, Clone)]
pub struct DirEntry {
    pub name: String,
    pub is_dir: bool,
    /// The file size; none for directories or when unknown.
    pub size: Option<u64>,
}

/// Name, directory flag, size.
pub type EntryView = (Seq<char>, bool, Option<u64>);

impl View for DirEntry {
    type V = EntryView;

    open spec fn view(&self) -> EntryView {
        (self.name@, self.is_dir, self.size)
    }
}

/// Lexicographic order on character sequences.
pub open spec fn chars_le(a: Seq<char>, b: Seq<char>) -> bool
    decreases a.len(),
{
    if a.len() == 0 {
        true
    } else if b.len() == 0 {
        false
    } else if a[0] != b[0] {
        (a[0] as u32) < (b[0] as u32)
    } else {
        chars_le(a.drop_first(), b.drop_first())
    }
}

/// Directories come before files; within each, names in lexicographic order.
pub open spec fn entry_le(a: EntryView, b: EntryView) -> bool {
    (a.1 && !b.1) || (a.1 == b.1 && chars_le(a.0, b.0))
}

/// Each entry is in order with the next.
pub open spec fn entries_sorted(s: Seq<EntryView>) -> bool {
    forall|i: int| 0 <= i < s.len() - 1 ==> entry_le(#[trigger] s[i], s[i + 1])
}

proof fn lemma_chars_total(a: Seq<char>, b: Seq<char>)
    ensures
        chars_le(a, b) || chars_le(b, a),
    decreases a.len(),
{
    if a.len() > 0 && b.len() > 0 {
        if a[0] == b[0] {
            lemma_chars_total(a.drop_first(), b.drop_first());
        } else {
            vstd::utf8::char_u32_cast(a[0], a[0] as u32);
            vstd::utf8::char_u32_cast(b[0], b[0] as u32);
            assert((a[0] as u32) != (b[0] as u32));
        }
    }
}

fn chars_le_exec(a: &str, b: &str) -> (r: bool)
    ensures
        r == chars_le(a@, b@),
{
    let n = a.unicode_len();
    let m = b.unicode_len();
    let mut i: usize = 0;
    assert(a@.subrange(0, n as int) =~= a@);
    assert(b@.subrange(0, m as int) =~= b@);
    while i < n && i < m && a.get_char(i) == b.get_char(i)
        invariant
            n == a@.len(),
            m == b@.len(),
            i <= n,
            i <= m,
            chars_le(a@, b@) == chars_le(a@.subrange(i as int, n as int), b@.subrange(i as int, m as int)),
        decreases n - i,
    {
        proof {
            let x = a@.subrange(i as int, n as int);
            let y = b@.subrange(i as int, m as int);
            assert(x.drop_first() =~= a@.subrange(i + 1, n as int));
            assert(y.drop_first() =~= b@.subrange(i + 1, m as int));
        }
        i = i + 1;
    }
    if i == n {
        return true;
    }
    if i == m {
        return false;
    }
    (a.get_char(i) as u32) < (b.get_char(i) as u32)
}

fn entry_le_exec(a: &DirEntry, b: &DirEntry) -> (r: bool)
    ensures
        r == entry_le(a@, b@),
{
    (a.is_dir && !b.is_dir) || (a.is_dir == b.is_dir && chars_le_exec(a.name.as_str(), b.name.as_str()))
}

/// The entries in listing order: directories first, then by name.
pub fn sort_entries(entries: Vec<DirEntry>) -> (r: Vec<DirEntry>)
    ensures
        entries_sorted(r@.map_values(|e: DirEntry| e@)),
        r@.map_values(|e: DirEntry| e@).to_multiset() == entries@.map_values(|e: DirEntry| e@).to_multiset(),
{
    broadcast use group_to_multiset_ensures;
    let ghost src = entries@.map_values(|e: DirEntry| e@);
    let mut out: Vec<DirEntry> = Vec::new();
    let mut rest = entries;
    let n = rest.len();
    let mut i: usize = 0;
    assert(src.subrange(0, 0) =~= Seq::<EntryView>::empty());
    assert(out@.map_values(|e: DirEntry| e@) =~= Seq::<EntryView>::empty());
    while i < n
        invariant
            n == rest@.len(),
            src == rest@.map_values(|e: DirEntry| e@),
            i <= n,
            entries_sorted(out@.map_values(|e: DirEntry| e@)),
            out@.map_values(|e: DirEntry| e@).to_multiset() == src.subrange(0, i as int).to_multiset(),
        decreases n - i,
    {
        let e = rest[i].clone_entry();
        let ghost ov = out@.map_values(|x: DirEntry| x@);
        let m = out.len();
        let mut j: usize = 0;
        while j < m && entry_le_exec(&out[j], &e)
            invariant
                m == out@.len(),
                ov == out@.map_values(|x: DirEntry| x@),
                j <= m,
                forall|k: int| 0 <= k < j ==> entry_le(#[trigger] ov[k], e@),
            decreases m - j,
        {
            j = j + 1;
        }
        proof {
            if j < m {
                lemma_chars_total(ov[j as int].0, e@.0);
            }
        }
        out.insert(j, e);
        proof {
            let nv = out@.map_values(|x: DirEntry| x@);
            assert(nv =~= ov.insert(j as int, e@));
            assert forall|k: int| 0 <= k < nv.len() - 1 implies entry_le(#[trigger] nv[k], nv[k + 1]) by {
                if k + 1 < j {
                    assert(nv[k] == ov[k] && nv[k + 1] == ov[k + 1]);
                } else if k + 1 == j {
                    assert(nv[k] == ov[k]);
                } else if k == j {
                    assert(nv[k + 1] == ov[j as int]);
                } else {
                    assert(nv[k] == ov[k - 1] && nv[k + 1] == ov[k]);
                }
            }
            to_multiset_insert(ov, j as int, e@);
            assert(src.subrange(0, i + 1) =~= src.subrange(0, i as int).push(src[i as int]));
            to_multiset_build(src.subrange(0, i as int), src[i as int]);
        }
        i = i + 1;
    }
    assert(src.subrange(0, n as int) =~= src);
    out
}

impl DirEntry {
    /// A copy of the entry.
    pub fn clone_entry(&self) -> (r: DirEntry)
        ensures
            r@ == self@,
    {
        DirEntry { name: self.name.clone(), is_dir: self.is_dir, size: self.size }
    }
}

/// The link to the parent directory: the path up to its last `/` (the root when that is first).
pub open spec fn parent_of(path: Seq<char>) -> Seq<char> {
    if exists|i: int| 0 <= i < path.len() && path[i] == '/' {
        let k = choose|i: int|
            0 <= i < path.len() && path[i] == '/' && forall|j: int| i < j < path.len() ==> path[j] != '/';
        if k == 0 {
            "/"@
        } else {
            path.subrange(0, k)
        }
    } else {
        "/"@
    }
}

/// Spaces that pad a name to fifty columns.
pub open spec fn padding(len: nat) -> Seq<char> {
    Seq::new(if len < 50 { (50 - len) as nat } else { 0 }, |i: int| ' ')
}

/// The link of a listing line.
pub open spec fn entry_link(dir: Seq<char>, e: EntryView) -> Seq<char> {
    let url = if dir.len() > 0 && dir.last() == '/' { dir + e.0 } else { dir + "/"@ + e.0 };
    "<a href=\""@ + url + "\">"@ + e.0 + (if e.1 { "/"@ } else { ""@ }) + "</a>"@
}

/// The size column of a listing line: `-` for directories and unknown sizes.
pub open spec fn entry_size(e: EntryView) -> Seq<char> {
    if e.1 {
        "-"@
    } else {
        match e.2 {
            Some(n) => decimal(n as nat),
            None => "-"@,
        }
    }
}

/// One line of the listing.
pub open spec fn entry_line(dir: Seq<char>, e: EntryView) -> Seq<char> {
    entry_link(dir, e) + padding(e.0.len()) + entry_size(e) + "\n"@
}

pub open spec fn entry_lines(dir: Seq<char>, es: Seq<EntryView>) -> Seq<char>
    decreases es.len(),
{
    if es.len() == 0 {
        seq![]
    } else {
        entry_lines(dir, es.drop_last()) + entry_line(dir, es.last())
    }
}

/// The listing page for `dir` with its entries in the given order.
pub open spec fn listing_page(dir: Seq<char>, es: Seq<EntryView>) -> Seq<char> {
    "<!DOCTYPE html>\n<html><head><title>Index of "@ + dir + "</title></head><body><h1>Index of "@ + dir
        + "</h1><hr><pre>"@ + (if dir == "/"@ {
        ""@
    } else {
        "<a href=\""@ + parent_of(dir) + "\">../</a>\n"@
    }) + entry_lines(dir, es) + "</pre><hr></body></html>"@
}

fn parent_path(path: &str) -> (r: String)
    ensures
        r@ == parent_of(path@),
{
    match rfind_char(path, '/') {
        Some(k) => {
            proof {
                let l = path@;
                let k2 = choose|i: int|
                    0 <= i < l.len() && l[i] == '/' && forall|j: int| i < j < l.len() ==> l[j] != '/';
                assert(0 <= k < l.len() && l[k as int] == '/');
                if k2 < k {
                    assert(l[k as int] != '/');
                } else if k2 > k {
                    assert(l[k2] != '/');
                }
            }
            if k == 0 {
                "/".to_owned()
            } else {
                substring(path, 0, k)
            }
        },
        None => "/".to_owned(),
    }
}

fn push_link(html: &mut String, dir: &str, e: &DirEntry)
    ensures
        final(html)@ == old(html)@ + entry_link(dir@, e@),
{
    let n = dir.unicode_len();
    html.append("<a href=\"");
    html.append(dir);
    if !(n > 0 && dir.get_char(n - 1) == '/') {
        html.append("/");
    }
    html.append(e.name.as_str());
    html.append("\">");
    html.append(e.name.as_str());
    if e.is_dir {
        html.append("/");
    }
    html.append("</a>");
    proof {
        reveal_strlit("");
    }
    assert(html@ =~= old(html)@ + entry_link(dir@, e@));
}

fn push_padding(html: &mut String, len: usize)
    ensures
        final(html)@ == old(html)@ + padding(len as nat),
{
    let pad: usize = if len < 50 { 50 - len } else { 0 };
    let mut k: usize = 0;
    while k < pad
        invariant
            k <= pad,
            html@ == old(html)@ + Seq::new(k as nat, |i: int| ' '),
        decreases pad - k,
    {
        crate::text::push_char(html, ' ');
        assert(html@ =~= old(html)@ + Seq::new((k + 1) as nat, |i: int| ' '));
        k = k + 1;
    }
    assert(Seq::new(pad as nat, |i: int| ' ') =~= padding(len as nat));
}

fn push_size(html: &mut String, e: &DirEntry)
    ensures
        final(html)@ == old(html)@ + entry_size(e@),
{
    if e.is_dir {
        html.append("-");
    } else {
        match e.size {
            Some(s) => push_decimal(html, s),
            None => html.append("-"),
        }
    }
}

fn push_entry_line(html: &mut String, dir: &str, e: &DirEntry)
    ensures
        final(html)@ == old(html)@ + entry_line(dir@, e@),
{
    push_link(html, dir, e);
    let len = e.name.as_str().unicode_len();
    push_padding(html, len);
    push_size(html, e);
    html.append("\n");
    assert(html@ =~= old(html)@ + entry_line(dir@, e@));
}

/// Renders the listing page for `dir` with the entries in the given order.
pub fn listing_html(dir: &str, entries: &Vec<DirEntry>) -> (r: String)
    ensures
        r@ == listing_page(dir@, entries@.map_values(|e: DirEntry| e@)),
{
    let mut html = "<!DOCTYPE html>\n<html><head><title>Index of ".to_owned();
    html.append(dir);
    html.append("</title></head><body><h1>Index of ");
    html.append(dir);
    html.append("</h1><hr><pre>");
    if !eq_str(dir, "/") {
        html.append("<a href=\"");
        let p = parent_path(dir);
        html.append(p.as_str());
        html.append("\">../</a>\n");
    }
    proof {
        reveal_strlit("");
    }
    let ghost base = html@;
    let ghost es = entries@.map_values(|e: DirEntry| e@);
    let mut i: usize = 0;
    assert(es.subrange(0, 0).len() == 0);
    assert(html@ =~= base + entry_lines(dir@, es.subrange(0, 0)));
    while i < entries.len()
        invariant
            es == entries@.map_values(|e: DirEntry| e@),
            i <= entries@.len(),
            html@ == base + entry_lines(dir@, es.subrange(0, i as int)),
        decreases entries@.len() - i,
    {
        push_entry_line(&mut html, dir, &entries[i]);
        proof {
            let pre = es.subrange(0, i + 1);
            assert(pre.drop_last() =~= es.subrange(0, i as int));
            assert(pre.last() == entries@[i as int]@);
            assert(html@ =~= base + entry_lines(dir@, pre));
        }
        i = i + 1;
    }
    assert(es.subrange(0, i as int) =~= es);
    html.append("</pre><hr></body></html>");
    assert(html@ =~= listing_page(dir@, es));
    html
}

/// Lists directories whose routes allow it.
pub struct DirectoryListingHandler {
    router: Router,
}

impl DirectoryListingHandler {
    pub fn new(router: Router) -> (r: DirectoryListingHandler)
        ensures
            r.router() == router,
    {
        DirectoryListingHandler { router }
    }

    pub closed spec fn router(&self) -> Router {
        self.router
    }

    pub fn router_ref(&self) -> (r: &Router)
        ensures
            *r == self.router(),
    {
        &self.router
    }

    /// The listing response for the request path: entries sorted, page as HTML.
    pub fn listing_response(version: Version, request_path: &str, entries: Vec<DirEntry>) -> (r: Response)
        ensures
            r.status.0 == 200,
            r.version == version,
            !r.chunked,
            exists|es: Seq<EntryView>|
                entries_sorted(es) && es.to_multiset() == entries@.map_values(|e: DirEntry| e@).to_multiset()
                    && r.body@ == crate::utf8::encode(listing_page(request_path@, es)),
    {
        let sorted = sort_entries(entries);
        let html = listing_html(request_path, &sorted);
        let mut resp = Response::ok(version);
        resp.set_content_type("text/html");
        resp.set_body_str(html.as_str());
        resp
    }
}

} // verus!
