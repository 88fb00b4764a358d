//! Name/value maps for query parameters and cookies, and the text splitting
//! that produces them.
use vstd::prelude::*;
use crate::text::{digit_value, eq_str, find_char, is_hex_digit, push_char, substring};

verus! {

/// The value bound to `k`: the one inserted last.
pub open spec fn lookup(s: Seq<(Seq<char>, Seq<char>)>, k: Seq<char>) -> Option<Seq<char>>
    decreases s.len(),
{
    if s.len() == 0 {
        None
    } else if s.last().0 == k {
        Some(s.last().1)
    } else {
        lookup(s.drop_last(), k)
    }
}

/// A map from names to values; a later insert under a name hides earlier ones.
#[derive(Debug, Clone)]
pub struct ParamMap {
    entries: Vec<(String, String)>,
}

impl View for ParamMap {
    type V = Seq<(Seq<char>, Seq<char>)>;

    closed spec fn view(&self) -> Seq<(Seq<char>, Seq<char>)> {
        self.entries@.map_values(|e: (String, String)| (e.0@, e.1@))
    }
}

impl ParamMap {
    pub fn new() -> (r: ParamMap)
        ensures
            r@ == Seq::<(Seq<char>, Seq<char>)>::empty(),
    {
        ParamMap { entries: Vec::new() }
    }

    /// Binds `key` to `value`.
    pub fn insert(&mut self, key: String, value: String)
        ensures
            final(self)@ == old(self)@.push((key@, value@)),
    {
        self.entries.push((key, value));
        assert(self@ =~= old(self)@.push((key@, value@)));
    }

    /// The value bound to `key`.
    pub fn get(&self, key: &str) -> (r: Option<&String>)
        ensures
            match r {
                Some(v) => lookup(self@, key@) == Some(v@),
                None => lookup(self@, key@) is None,
            },
    {
        let mut i: usize = self.entries.len();
        assert(self@.subrange(0, i as int) =~= self@);
        while i > 0
            invariant
                i <= self@.len(),
                self@.len() == self.entries@.len(),
                lookup(self@, key@) == lookup(self@.subrange(0, i as int), key@),
            decreases i,
        {
            let ghost pre = self@.subrange(0, i as int);
            assert(pre.drop_last() =~= self@.subrange(0, i - 1));
            assert(pre.last() == (self.entries@[i - 1].0@, self.entries@[i - 1].1@));
            if eq_str(self.entries[i - 1].0.as_str(), key) {
                return Some(&self.entries[i - 1].1);
            }
            i = i - 1;
        }
        None
    }

    /// The bindings in insertion order; a later one hides an earlier one of the same name.
    pub fn entries(&self) -> (r: &Vec<(String, String)>)
        ensures
            r@.map_values(|e: (String, String)| (e.0@, e.1@)) == self@,
    {
        &self.entries
    }

    /// Unbinds `key`, returning the value it had.
    pub fn remove(&mut self, key: &str) -> (r: Option<String>)
        ensures
            match r {
                Some(v) => lookup(old(self)@, key@) == Some(v@),
                None => lookup(old(self)@, key@) is None,
            },
            lookup(final(self)@, key@) is None,
            forall|k: Seq<char>| k != key@ ==> lookup(final(self)@, k) == lookup(old(self)@, k),
    {
        let found = match self.get(key) {
            Some(v) => Some(v.clone()),
            None => None,
        };
        let mut kept: Vec<(String, String)> = Vec::new();
        let n = self.entries.len();
        let ghost s0 = self@;
        let mut i: usize = 0;
        while i < n
            invariant
                n == self.entries@.len(),
                s0 == self@,
                i <= n,
                lookup(kept@.map_values(|e: (String, String)| (e.0@, e.1@)), key@) is None,
                forall|k: Seq<char>|
                    k != key@ ==> lookup(kept@.map_values(|e: (String, String)| (e.0@, e.1@)), k)
                        == lookup(s0.subrange(0, i as int), k),
            decreases n - i,
        {
            let ghost before = kept@.map_values(|e: (String, String)| (e.0@, e.1@));
            let ghost pre = s0.subrange(0, i + 1);
            assert(pre.drop_last() =~= s0.subrange(0, i as int));
            assert(pre.last() == (self.entries@[i as int].0@, self.entries@[i as int].1@));
            if !eq_str(self.entries[i].0.as_str(), key) {
                let e = (self.entries[i].0.clone(), self.entries[i].1.clone());
                kept.push(e);
                let ghost after = kept@.map_values(|e: (String, String)| (e.0@, e.1@));
                assert(after =~= before.push((e.0@, e.1@)));
                assert(after.drop_last() =~= before);
                assert(lookup(after, key@) is None);
                assert forall|k: Seq<char>| k != key@ implies lookup(after, k) == lookup(pre, k) by {
                    assert(lookup(after, k) == if e.0@ == k { Some(e.1@) } else { lookup(before, k) });
                    assert(e.0@ == pre.last().0 && e.1@ == pre.last().1);
                    assert(lookup(pre, k) == if pre.last().0 == k { Some(pre.last().1) } else { lookup(
                        pre.drop_last(),
                        k,
                    ) });
                }
            } else {
                assert forall|k: Seq<char>| k != key@ implies lookup(before, k) == lookup(pre, k) by {
                    assert(lookup(pre, k) == lookup(pre.drop_last(), k));
                }
            }
            i = i + 1;
        }
        assert(s0.subrange(0, n as int) =~= s0);
        self.entries = kept;
        found
    }

    /// Drops every binding.
    pub fn clear(&mut self)
        ensures
            final(self)@ == Seq::<(Seq<char>, Seq<char>)>::empty(),
    {
        self.entries = Vec::new();
        assert(self@ =~= Seq::<(Seq<char>, Seq<char>)>::empty());
    }

    /// A copy with the same bindings.
    pub fn copy(&self) -> (r: ParamMap)
        ensures
            r@ == self@,
    {
        let mut out: Vec<(String, String)> = Vec::new();
        let n = self.entries.len();
        let mut i: usize = 0;
        while i < n
            invariant
                n == self.entries@.len(),
                i <= n,
                out@.map_values(|e: (String, String)| (e.0@, e.1@)) == self@.subrange(0, i as int),
            decreases n - i,
        {
            let e = (self.entries[i].0.clone(), self.entries[i].1.clone());
            let ghost before = out@.map_values(|e: (String, String)| (e.0@, e.1@));
            out.push(e);
            assert(out@.map_values(|e: (String, String)| (e.0@, e.1@)) =~= before.push((e.0@, e.1@)));
            assert(self@.subrange(0, i + 1) =~= self@.subrange(0, i as int).push(self@[i as int]));
            i = i + 1;
        }
        assert(self@.subrange(0, n as int) =~= self@);
        ParamMap { entries: out }
    }

    pub fn contains_key(&self, key: &str) -> (r: bool)
        ensures
            r == (lookup(self@, key@) is Some),
    {
        self.get(key).is_some()
    }
}

/// The pieces of `s` between occurrences of `sep`, empty pieces included.
pub open spec fn split_on(s: Seq<char>, sep: char) -> Seq<Seq<char>>
    decreases s.len(),
{
    if s.len() == 0 {
        seq![seq![]]
    } else if s.last() == sep {
        split_on(s.drop_last(), sep).push(seq![])
    } else {
        let p = split_on(s.drop_last(), sep);
        p.update(p.len() - 1, p.last().push(s.last()))
    }
}

/// Splits `s` at every `sep`.
pub fn split_str(s: &str, sep: char) -> (r: Vec<String>)
    ensures
        r@.map_values(|x: String| x@) == split_on(s@, sep),
{
    let n = s.unicode_len();
    let mut done: Vec<String> = Vec::new();
    let mut cur = String::new();
    let mut i: usize = 0;
    assert(s@.subrange(0, 0) =~= Seq::<char>::empty());
    assert(done@.map_values(|x: String| x@).push(cur@) =~= split_on(s@.subrange(0, 0), sep));
    while i < n
        invariant
            n == s@.len(),
            i <= n,
            done@.map_values(|x: String| x@).push(cur@) == split_on(s@.subrange(0, i as int), sep),
        decreases n - i,
    {
        let c = s.get_char(i);
        let ghost pre = s@.subrange(0, i + 1);
        assert(pre.drop_last() =~= s@.subrange(0, i as int));
        let ghost old_done = done@.map_values(|x: String| x@);
        let ghost old_cur = cur@;
        if c == sep {
            let mut piece = String::new();
            std::mem::swap(&mut cur, &mut piece);
            done.push(piece);
            assert(done@.map_values(|x: String| x@) =~= old_done.push(old_cur));
        } else {
            push_char(&mut cur, c);
            assert(done@.map_values(|x: String| x@) =~= old_done);
            let ghost p = old_done.push(old_cur);
            assert(p.update(p.len() - 1, p.last().push(c)) =~= old_done.push(cur@));
        }
        assert(done@.map_values(|x: String| x@).push(cur@) =~= split_on(pre, sep));
        i = i + 1;
    }
    assert(s@.subrange(0, n as int) =~= s@);
    done.push(cur);
    assert(done@.map_values(|x: String| x@) =~= split_on(s@, sep));
    done
}

/// `s` split at its first `sep`, without trimming.
pub open spec fn split_first(s: Seq<char>, sep: char) -> Option<(Seq<char>, Seq<char>)> {
    if exists|k: int| 0 <= k < s.len() && s[k] == sep {
        let k = choose|k: int|
            0 <= k < s.len() && s[k] == sep && forall|j: int| 0 <= j < k ==> s[j] != sep;
        Some((s.subrange(0, k), s.subrange(k + 1, s.len() as int)))
    } else {
        None
    }
}

/// Splits `s` at its first `sep`.
pub fn split_once(s: &str, sep: char) -> (r: Option<(String, String)>)
    ensures
        match r {
            Some((a, b)) => split_first(s@, sep) == Some((a@, b@)),
            None => split_first(s@, sep) is None,
        },
{
    match find_char(s, sep) {
        Some(k) => {
            let n = s.unicode_len();
            let a = substring(s, 0, k);
            let b = substring(s, k + 1, n);
            proof {
                let l = s@;
                assert(exists|j: int| 0 <= j < l.len() && l[j] == sep);
                let k2 = choose|j: int|
                    0 <= j < l.len() && l[j] == sep && forall|m: int| 0 <= m < j ==> l[m] != sep;
                assert(l[k as int] == sep && forall|m: int| 0 <= m < k ==> l[m] != sep);
                if k2 < k {
                    assert(l[k2] != sep);
                } else if k2 > k {
                    assert(l[k as int] != sep);
                }
            }
            Some((a, b))
        },
        None => None,
    }
}

/// The character with code `b` (Latin-1).
pub open spec fn byte_char(b: nat) -> char {
    (b as u8) as char
}

/// Percent-decoding of a query component: `%XY` with two hex digits becomes
/// that byte's character, `+` becomes a space, anything else is kept.
pub open spec fn url_decoded(s: Seq<char>) -> Seq<char>
    decreases s.len(),
{
    if s.len() == 0 {
        seq![]
    } else if s[0] == '%' && s.len() >= 3 && is_hex_digit(s[1]) && is_hex_digit(s[2]) {
        seq![byte_char(digit_value(s[1]) * 16 + digit_value(s[2]))] + url_decoded(
            s.subrange(3, s.len() as int),
        )
    } else if s[0] == '+' {
        seq![' '] + url_decoded(s.subrange(1, s.len() as int))
    } else {
        seq![s[0]] + url_decoded(s.subrange(1, s.len() as int))
    }
}

fn hex_val(c: char) -> (r: Option<u8>)
    ensures
        match r {
            Some(v) => is_hex_digit(c) && v as nat == digit_value(c),
            None => !is_hex_digit(c),
        },
{
    if '0' <= c && c <= '9' {
        Some((c as u32 - 48) as u8)
    } else if 'a' <= c && c <= 'f' {
        Some((c as u32 - 87) as u8)
    } else if 'A' <= c && c <= 'F' {
        Some((c as u32 - 55) as u8)
    } else {
        None
    }
}

/// Decodes `%XY` escapes and `+` in a query component.
pub fn url_decode(s: &str) -> (r: String)
    ensures
        r@ == url_decoded(s@),
{
    let n = s.unicode_len();
    let mut out = String::new();
    let mut i: usize = 0;
    assert(s@.subrange(0, n as int) =~= s@);
    while i < n
        invariant
            n == s@.len(),
            i <= n,
            url_decoded(s@) == out@ + url_decoded(s@.subrange(i as int, n as int)),
        decreases n - i,
    {
        let ghost rest = s@.subrange(i as int, n as int);
        let c = s.get_char(i);
        let ghost before = out@;
        if c == '%' && n - i > 2 {
            let h1 = hex_val(s.get_char(i + 1));
            let h2 = hex_val(s.get_char(i + 2));
            if let (Some(a), Some(b)) = (h1, h2) {
                let v: u8 = a * 16 + b;
                push_char(&mut out, v as char);
                assert(rest.subrange(3, rest.len() as int) =~= s@.subrange(i + 3, n as int));
                assert(out@ + url_decoded(s@.subrange(i + 3, n as int)) =~= before + url_decoded(rest));
                i = i + 3;
                continue;
            }
        }
        if c == '+' {
            push_char(&mut out, ' ');
        } else {
            push_char(&mut out, c);
        }
        assert(rest.subrange(1, rest.len() as int) =~= s@.subrange(i + 1, n as int));
        assert(out@ + url_decoded(s@.subrange(i + 1, n as int)) =~= before + url_decoded(rest));
        i = i + 1;
    }
    assert(out@ =~= out@ + url_decoded(s@.subrange(n as int, n as int)));
    out
}

} // verus!
