//! Case-insensitive header multi-map that keeps insertion order.
use vstd::prelude::*;
use crate::text::{eq_ignore_case, eq_nocase, find_char, substring, trim, trim_str};

verus! {

/// One header name with its values, in the order they were added.
pub type HeaderEntry = (Seq<char>, Seq<Seq<char>>);

/// Entry `i` carries `name`, compared without case.
pub open spec fn names_match(h: Seq<HeaderEntry>, i: int, name: Seq<char>) -> bool {
    0 <= i < h.len() && eq_nocase(h[i].0, name)
}

/// Some entry carries `name`.
pub open spec fn has_name(h: Seq<HeaderEntry>, name: Seq<char>) -> bool {
    exists|i: int| names_match(h, i, name)
}

/// The index of the first entry that carries `name` (meaningful when `has_name`).
pub open spec fn name_index(h: Seq<HeaderEntry>, name: Seq<char>) -> int {
    choose|i: int| names_match(h, i, name) && forall|j: int| 0 <= j < i ==> !names_match(h, j, name)
}

/// The values stored under `name`; empty when the name is absent.
pub open spec fn values_of(h: Seq<HeaderEntry>, name: Seq<char>) -> Seq<Seq<char>> {
    if has_name(h, name) {
        h[name_index(h, name)].1
    } else {
        seq![]
    }
}

/// Appending `value` under `name`.
pub open spec fn add_entry(h: Seq<HeaderEntry>, name: Seq<char>, value: Seq<char>) -> Seq<
    HeaderEntry,
> {
    if has_name(h, name) {
        let i = name_index(h, name);
        h.update(i, (h[i].0, h[i].1.push(value)))
    } else {
        h.push((name, seq![value]))
    }
}

/// Replacing whatever `name` held by the single `value`.
pub open spec fn set_entry(h: Seq<HeaderEntry>, name: Seq<char>, value: Seq<char>) -> Seq<
    HeaderEntry,
> {
    if has_name(h, name) {
        let i = name_index(h, name);
        h.update(i, (h[i].0, seq![value]))
    } else {
        h.push((name, seq![value]))
    }
}

/// Dropping every entry that carries `name`.
pub open spec fn remove_entry(h: Seq<HeaderEntry>, name: Seq<char>) -> Seq<HeaderEntry>
    decreases h.len(),
{
    if h.len() == 0 {
        h
    } else if eq_nocase(h.last().0, name) {
        remove_entry(h.drop_last(), name)
    } else {
        remove_entry(h.drop_last(), name).push(h.last())
    }
}

/// After removal no entry carries the name; other names are as present as before.
pub proof fn lemma_remove_entry(h: Seq<HeaderEntry>, name: Seq<char>, other: Seq<char>)
    ensures
        !has_name(remove_entry(h, name), name),
        has_name(remove_entry(h, name), other) ==> has_name(h, other),
    decreases h.len(),
{
    if h.len() > 0 {
        lemma_remove_entry(h.drop_last(), name, other);
        let r = remove_entry(h, name);
        let r0 = remove_entry(h.drop_last(), name);
        if eq_nocase(h.last().0, name) {
            if has_name(r, other) {
                let j = choose|j: int| names_match(h.drop_last(), j, other);
                assert(names_match(h, j, other));
            }
        } else {
            assert forall|i: int| names_match(r, i, name) implies false by {
                if i < r0.len() {
                    assert(r[i] == r0[i]);
                    assert(names_match(r0, i, name));
                }
            }
            if has_name(r, other) {
                let i = choose|i: int| names_match(r, i, other);
                if i < r0.len() {
                    assert(r[i] == r0[i]);
                    assert(names_match(r0, i, other));
                    let j = choose|j: int| names_match(h.drop_last(), j, other);
                    assert(names_match(h, j, other));
                } else {
                    assert(names_match(h, h.len() - 1, other));
                }
            }
        }
    }
}

proof fn lemma_first_from(h: Seq<HeaderEntry>, name: Seq<char>, k: int)
    requires
        0 <= k,
        forall|j: int| 0 <= j < k ==> !names_match(h, j, name),
        exists|i: int| k <= i && names_match(h, i, name),
    ensures
        exists|i: int| names_match(h, i, name) && forall|j: int| 0 <= j < i ==> !names_match(h, j, name),
    decreases h.len() - k,
{
    if names_match(h, k, name) {
        assert(names_match(h, k, name) && forall|j: int| 0 <= j < k ==> !names_match(h, j, name));
    } else {
        let i = choose|i: int| k <= i && names_match(h, i, name);
        assert(i < h.len());
        lemma_first_from(h, name, k + 1);
    }
}

/// When the name is present, `name_index` designates its first entry.
pub proof fn lemma_has_first(h: Seq<HeaderEntry>, name: Seq<char>)
    requires
        has_name(h, name),
    ensures
        names_match(h, name_index(h, name), name),
        forall|j: int| 0 <= j < name_index(h, name) ==> !names_match(h, j, name),
{
    let i = choose|i: int| names_match(h, i, name);
    assert(0 <= i && names_match(h, i, name));
    lemma_first_from(h, name, 0);
}

/// Setting `name` adds no other name.
pub proof fn lemma_set_entry(h: Seq<HeaderEntry>, name: Seq<char>, value: Seq<char>, other: Seq<char>)
    ensures
        has_name(set_entry(h, name, value), other) ==> has_name(h, other) || eq_nocase(name, other),
        has_name(set_entry(h, name, value), name),
{
    let r = set_entry(h, name, value);
    if has_name(h, name) {
        lemma_has_first(h, name);
        let k = name_index(h, name);
        assert(names_match(r, k, name));
        if has_name(r, other) {
            let i = choose|i: int| names_match(r, i, other);
            assert(names_match(h, i, other));
        }
    } else {
        assert(names_match(r, h.len() as int, name));
        if has_name(r, other) {
            let i = choose|i: int| names_match(r, i, other);
            if i < h.len() {
                assert(names_match(h, i, other));
            }
        }
    }
}

/// The wire text of a list of values under one name.
pub open spec fn values_text(name: Seq<char>, vs: Seq<Seq<char>>) -> Seq<char>
    decreases vs.len(),
{
    if vs.len() == 0 {
        seq![]
    } else {
        values_text(name, vs.drop_last()) + name + ": "@ + vs.last() + "\r\n"@
    }
}

/// The wire text of all header lines, one line per value.
pub open spec fn headers_text(h: Seq<HeaderEntry>) -> Seq<char>
    decreases h.len(),
{
    if h.len() == 0 {
        seq![]
    } else {
        headers_text(h.drop_last()) + values_text(h.last().0, h.last().1)
    }
}

/// One raw header line read as `Name: value`, both sides trimmed.
pub open spec fn line_split(line: Seq<char>) -> Option<(Seq<char>, Seq<char>)> {
    if exists|k: int| 0 <= k < line.len() && line[k] == ':' {
        let k = choose|k: int|
            0 <= k < line.len() && line[k] == ':' && forall|j: int| 0 <= j < k ==> line[j] != ':';
        Some((trim(line.subrange(0, k)), trim(line.subrange(k + 1, line.len() as int))))
    } else {
        None
    }
}

/// The line holds a colon with a non-blank name before it.
pub open spec fn line_ok(line: Seq<char>) -> bool {
    line_split(line) is Some && line_split(line).unwrap().0.len() > 0
}

/// The headers read from raw lines, each added in order.
pub open spec fn headers_from(lines: Seq<Seq<char>>) -> Seq<HeaderEntry>
    decreases lines.len(),
{
    if lines.len() == 0 {
        seq![]
    } else {
        let p = line_split(lines.last()).unwrap();
        add_entry(headers_from(lines.drop_last()), p.0, p.1)
    }
}

/// The first matching entry is the one `name_index` designates.
pub proof fn lemma_name_index(h: Seq<HeaderEntry>, name: Seq<char>, i: int)
    requires
        names_match(h, i, name),
        forall|j: int| 0 <= j < i ==> !names_match(h, j, name),
    ensures
        has_name(h, name),
        name_index(h, name) == i,
        values_of(h, name) == h[i].1,
{
    let k = name_index(h, name);
    assert(names_match(h, k, name) && forall|j: int| 0 <= j < k ==> !names_match(h, j, name));
    if k < i {
        assert(!names_match(h, k, name));
    } else if k > i {
        assert(!names_match(h, i, name));
    }
}

/// Splits a line at its first colon into a trimmed name and value.
fn split_line(line: &str) -> (r: Option<(String, String)>)
    ensures
        match r {
            Some((n, v)) => line_split(line@) == Some((n@, v@)),
            None => line_split(line@) is None,
        },
{
    match find_char(line, ':') {
        Some(k) => {
            let n = line.unicode_len();
            let a = substring(line, 0, k);
            let b = substring(line, k + 1, n);
            let name = trim_str(a.as_str());
            let value = trim_str(b.as_str());
            proof {
                let l = line@;
                assert(exists|j: int| 0 <= j < l.len() && l[j] == ':');
                let k2 = choose|j: int|
                    0 <= j < l.len() && l[j] == ':' && forall|m: int| 0 <= m < j ==> l[m] != ':';
                assert(0 <= k && k < l.len() && l[k as int] == ':' && forall|m: int| 0 <= m < k ==> l[m] != ':');
                if k2 < k {
                    assert(l[k2] != ':');
                } else if k2 > k {
                    assert(l[k as int] != ':');
                }
            }
            Some((name, value))
        },
        None => None,
    }
}

fn clone_values(v: &Vec<String>) -> (r: Vec<String>)
    ensures
        r@.map_values(|s: String| s@) == v@.map_values(|s: String| s@),
{
    let mut out: Vec<String> = Vec::new();
    let mut i: usize = 0;
    while i < v.len()
        invariant
            i <= v@.len(),
            out@.map_values(|s: String| s@) == v@.subrange(0, i as int).map_values(|s: String| s@),
        decreases v@.len() - i,
    {
        let c = v[i].clone();
        assert(c@ == v@[i as int]@);
        let ghost before = out@;
        out.push(c);
        assert(out@ == before.push(c));
        assert(out@.map_values(|s: String| s@) =~= before.map_values(|s: String| s@).push(c@));
        assert(v@.subrange(0, i + 1).map_values(|s: String| s@) =~= v@.subrange(0, i as int).map_values(
            |s: String| s@,
        ).push(v@[i as int]@));
        i = i + 1;
    }
    assert(v@.subrange(0, i as int) =~= v@);
    out
}

/// The header error.
#[derive(Debug, Clone)]
pub enum HeaderParseError {
    InvalidFormat,
}

/// Request or response headers.
#[derive(Debug, Clone)]
pub struct Headers {
    entries: Vec<(String, Vec<String>)>,
}

pub open spec fn entry_view(e: (String, Vec<String>)) -> HeaderEntry {
    (e.0@, e.1@.map_values(|v: String| v@))
}

impl View for Headers {
    type V = Seq<HeaderEntry>;

    closed spec fn view(&self) -> Seq<HeaderEntry> {
        self.entries@.map_values(|e: (String, Vec<String>)| entry_view(e))
    }
}

/// The first value stored under `name`.
pub open spec fn first_value(h: Seq<HeaderEntry>, name: Seq<char>) -> Option<Seq<char>> {
    if has_name(h, name) && values_of(h, name).len() > 0 {
        Some(values_of(h, name)[0])
    } else {
        None
    }
}

impl Headers {
    pub fn new() -> (r: Headers)
        ensures
            r@ == Seq::<HeaderEntry>::empty(),
    {
        Headers { entries: Vec::new() }
    }

    /// Index of the entry carrying `name`, without regard to case.
    fn position(&self, name: &str) -> (r: Option<usize>)
        ensures
            match r {
                Some(i) => names_match(self@, i as int, name@) && has_name(self@, name@)
                    && name_index(self@, name@) == i,
                None => !has_name(self@, name@),
            },
    {
        let n = self.entries.len();
        let mut i: usize = 0;
        while i < n
            invariant
                n == self.entries@.len(),
                i <= n,
                forall|j: int| 0 <= j < i ==> !names_match(self@, j, name@),
            decreases n - i,
        {
            if eq_ignore_case(self.entries[i].0.as_str(), name) {
                proof {
                    lemma_name_index(self@, name@, i as int);
                }
                return Some(i);
            }
            i = i + 1;
        }
        None
    }

    /// The first value stored under `name`.
    pub fn get(&self, name: &str) -> (r: Option<&String>)
        ensures
            match r {
                Some(v) => first_value(self@, name@) == Some(v@),
                None => first_value(self@, name@) is None,
            },
    {
        match self.position(name) {
            Some(i) => {
                let vs = &self.entries[i].1;
                proof {
                    assert(self@[i as int] == entry_view(self.entries@[i as int]));
                    assert(self@[i as int].1 == vs@.map_values(|s: String| s@));
                }
                if vs.len() == 0 {
                    None
                } else {
                    Some(&vs[0])
                }
            },
            None => None,
        }
    }

    /// All values stored under `name`.
    pub fn get_all(&self, name: &str) -> (r: Option<&Vec<String>>)
        ensures
            match r {
                Some(v) => has_name(self@, name@) && v@.map_values(|s: String| s@) == values_of(
                    self@,
                    name@,
                ),
                None => !has_name(self@, name@),
            },
    {
        match self.position(name) {
            Some(i) => {
                assert(self@[i as int] == entry_view(self.entries@[i as int]));
                Some(&self.entries[i].1)
            },
            None => None,
        }
    }

    /// Replaces the values under `name` by `value`.
    #[verifier::rlimit(40)]
    pub fn set(&mut self, name: String, value: String)
        ensures
            final(self)@ == set_entry(old(self)@, name@, value@),
    {
        let mut vs: Vec<String> = Vec::new();
        vs.push(value);
        match self.position(name.as_str()) {
            Some(i) => {
                let e = self.entries.remove(i);
                self.entries.insert(i, (e.0, vs));
                proof {
                    let h = old(self)@;
                    let ghost nh = h.update(i as int, (h[i as int].0, seq![value@]));
                    assert(self.entries@[i as int].1@.map_values(|s: String| s@) =~= seq![value@]);
                    assert(self@ =~= nh);
                }
            },
            None => {
                self.entries.push((name, vs));
                proof {
                    assert(vs@.map_values(|s: String| s@) =~= seq![value@]);
                    assert(self@ =~= old(self)@.push((name@, seq![value@])));
                }
            },
        }
    }

    /// Appends `value` under `name`, after any values already there.
    #[verifier::rlimit(40)]
    pub fn add(&mut self, name: String, value: String)
        ensures
            final(self)@ == add_entry(old(self)@, name@, value@),
    {
        match self.position(name.as_str()) {
            Some(i) => {
                let mut e = self.entries.remove(i);
                proof {
                    assert(entry_view(e) == old(self)@[i as int]);
                }
                e.1.push(value);
                self.entries.insert(i, e);
                proof {
                    let h = old(self)@;
                    let ghost nh = h.update(i as int, (h[i as int].0, h[i as int].1.push(value@)));
                    assert(self.entries@[i as int].1@.map_values(|s: String| s@) =~= h[i as int].1.push(
                        value@,
                    ));
                    assert(self@ =~= nh);
                }
            },
            None => {
                let mut vs: Vec<String> = Vec::new();
                vs.push(value);
                self.entries.push((name, vs));
                proof {
                    assert(vs@.map_values(|s: String| s@) =~= seq![value@]);
                    assert(self@ =~= old(self)@.push((name@, seq![value@])));
                }
            },
        }
    }

    /// Drops every entry carrying `name`, with all its values.
    pub fn remove(&mut self, name: &str)
        ensures
            final(self)@ == remove_entry(old(self)@, name@),
    {
        let mut kept: Vec<(String, Vec<String>)> = Vec::new();
        let mut all: Vec<(String, Vec<String>)> = Vec::new();
        std::mem::swap(&mut all, &mut self.entries);
        let ghost h = old(self)@;
        assert(all@.map_values(|e: (String, Vec<String>)| entry_view(e)) == h);
        let n = all.len();
        let mut i: usize = 0;
        while i < n
            invariant
                n == all@.len(),
                i <= n,
                h == all@.map_values(|e: (String, Vec<String>)| entry_view(e)),
                kept@.map_values(|e: (String, Vec<String>)| entry_view(e)) == remove_entry(h.subrange(0, i as int), name@),
            decreases n - i,
        {
            let ghost pre = h.subrange(0, i + 1);
            assert(pre.drop_last() =~= h.subrange(0, i as int));
            assert(pre.last() == entry_view(all@[i as int]));
            let ghost before = kept@.map_values(|e: (String, Vec<String>)| entry_view(e));
            if !eq_ignore_case(all[i].0.as_str(), name) {
                let e = (all[i].0.clone(), clone_values(&all[i].1));
                kept.push(e);
                assert(kept@.map_values(|e: (String, Vec<String>)| entry_view(e)) =~= before.push(pre.last()));
            }
            i = i + 1;
        }
        assert(h.subrange(0, n as int) =~= h);
        self.entries = kept;
    }

    /// A copy with the same entries.
    pub fn copy(&self) -> (r: Headers)
        ensures
            r@ == self@,
    {
        let mut out: Vec<(String, Vec<String>)> = Vec::new();
        let n = self.entries.len();
        let mut i: usize = 0;
        while i < n
            invariant
                n == self.entries@.len(),
                i <= n,
                out@.map_values(|e: (String, Vec<String>)| entry_view(e)) == self@.subrange(0, i as int),
            decreases n - i,
        {
            let e = (self.entries[i].0.clone(), clone_values(&self.entries[i].1));
            assert(entry_view(e) == self@[i as int]);
            let ghost before = out@;
            out.push(e);
            assert(out@ == before.push(e));
            assert(out@.map_values(|e: (String, Vec<String>)| entry_view(e)) =~= before.map_values(
                |e: (String, Vec<String>)| entry_view(e),
            ).push(entry_view(e)));
            assert(self@.subrange(0, i + 1) =~= self@.subrange(0, i as int).push(self@[i as int]));
            i = i + 1;
        }
        assert(self@.subrange(0, n as int) =~= self@);
        Headers { entries: out }
    }

    /// Whether `name` is present, without regard to case.
    pub fn contains(&self, name: &str) -> (r: bool)
        ensures
            r == has_name(self@, name@),
    {
        self.position(name).is_some()
    }

    /// The entries in insertion order.
    pub fn iter(&self) -> (r: &Vec<(String, Vec<String>)>)
        ensures
            r@.map_values(|e: (String, Vec<String>)| entry_view(e)) == self@,
    {
        &self.entries
    }

    pub fn is_empty(&self) -> (r: bool)
        ensures
            r == (self@.len() == 0),
    {
        self.entries.len() == 0
    }

    /// Reads `Name: value` lines; a line without a colon or with a blank name is refused.
    pub fn from_lines(lines: &[String]) -> (r: Result<Headers, HeaderParseError>)
        ensures
            match r {
                Ok(h) => (forall|i: int| 0 <= i < lines@.len() ==> line_ok(#[trigger] lines@[i]@))
                    && h@ == headers_from(lines@.map_values(|s: String| s@)),
                Err(_) => exists|i: int| 0 <= i < lines@.len() && !line_ok(#[trigger] lines@[i]@),
            },
    {
        let ghost ls = lines@.map_values(|s: String| s@);
        let mut h = Headers::new();
        let mut i: usize = 0;
        assert(ls.subrange(0, 0).len() == 0);
        while i < lines.len()
            invariant
                ls == lines@.map_values(|s: String| s@),
                i <= lines@.len(),
                h@ == headers_from(ls.subrange(0, i as int)),
                forall|j: int| 0 <= j < i ==> line_ok(#[trigger] lines@[j]@),
            decreases lines@.len() - i,
        {
            let line = lines[i].as_str();
            match split_line(line) {
                Some((name, value)) => {
                    if name.unicode_len() == 0 {
                        return Err(HeaderParseError::InvalidFormat);
                    }
                    proof {
                        let ghost pre = ls.subrange(0, i + 1);
                        assert(pre.drop_last() =~= ls.subrange(0, i as int));
                        assert(pre.last() == lines@[i as int]@);
                    }
                    h.add(name, value);
                    i = i + 1;
                },
                None => {
                    return Err(HeaderParseError::InvalidFormat);
                },
            }
        }
        assert(ls.subrange(0, i as int) =~= ls);
        Ok(h)
    }

    /// The header lines as sent on the wire, one `Name: value` line per value.
    pub fn to_string(&self) -> (r: String)
        ensures
            r@ == headers_text(self@),
    {
        let mut out = String::new();
        let n = self.entries.len();
        let mut i: usize = 0;
        while i < n
            invariant
                n == self@.len(),
                i <= n,
                out@ == headers_text(self@.subrange(0, i as int)),
            decreases n - i,
        {
            let name = self.entries[i].0.as_str();
            let vs = &self.entries[i].1;
            let ghost e = self@[i as int];
            assert(e == entry_view(self.entries@[i as int]));
            let ghost base = out@;
            let mut k: usize = 0;
            assert(e.1.subrange(0, 0).len() == 0);
            while k < vs.len()
                invariant
                    e.0 == name@,
                    e.1 == vs@.map_values(|s: String| s@),
                    k <= vs@.len(),
                    out@ == base + values_text(e.0, e.1.subrange(0, k as int)),
                decreases vs@.len() - k,
            {
                out.append(name);
                out.append(": ");
                out.append(vs[k].as_str());
                out.append("\r\n");
                proof {
                    let ghost pre = e.1.subrange(0, k + 1);
                    assert(pre.drop_last() =~= e.1.subrange(0, k as int));
                    assert(pre.last() == vs@[k as int]@);
                    assert(out@ =~= base + values_text(e.0, pre));
                }
                k = k + 1;
            }
            proof {
                assert(e.1.subrange(0, k as int) =~= e.1);
                let ghost pre = self@.subrange(0, i + 1);
                assert(pre.drop_last() =~= self@.subrange(0, i as int));
                assert(out@ =~= headers_text(pre));
            }
            i = i + 1;
        }
        assert(self@.subrange(0, n as int) =~= self@);
        out
    }

    /// The number of distinct names.
    pub fn len(&self) -> (r: usize)
        ensures
            r == self@.len(),
    {
        self.entries.len()
    }
}

} // verus!
