//! A growable byte buffer consumed from the front.
use vstd::prelude::*;

verus! {

/// `pat` occurs in `data` at position `i`.
pub open spec fn occurs_at(data: Seq<u8>, pat: Seq<u8>, i: int) -> bool {
    0 <= i && i + pat.len() <= data.len() && data.subrange(i, i + pat.len()) == pat
}

/// Bytes waiting to be consumed.
pub struct Buffer {
    data: Vec<u8>,
}

impl View for Buffer {
    type V = Seq<u8>;

    closed spec fn view(&self) -> Seq<u8> {
        self.data@
    }
}

impl Buffer {
    pub fn new() -> (r: Buffer)
        ensures
            r@ == Seq::<u8>::empty(),
    {
        Buffer { data: Vec::new() }
    }

    pub fn with_capacity(capacity: usize) -> (r: Buffer)
        ensures
            r@ == Seq::<u8>::empty(),
    {
        Buffer { data: Vec::with_capacity(capacity) }
    }

    pub fn push(&mut self, byte: u8)
        ensures
            final(self)@ == old(self)@.push(byte),
    {
        self.data.push(byte);
    }

    pub fn extend(&mut self, bytes: &[u8])
        ensures
            final(self)@ == old(self)@ + bytes@,
    {
        self.data.extend_from_slice(bytes);
    }

    pub fn len(&self) -> (r: usize)
        ensures
            r == self@.len(),
    {
        self.data.len()
    }

    pub fn is_empty(&self) -> (r: bool)
        ensures
            r == (self@.len() == 0),
    {
        self.data.len() == 0
    }

    pub fn clear(&mut self)
        ensures
            final(self)@ == Seq::<u8>::empty(),
    {
        self.data.clear();
    }

    /// Removes and returns the first `n` bytes (all of them when fewer are held).
    pub fn drain(&mut self, n: usize) -> (r: Vec<u8>)
        ensures
            ({
                let k = if n < old(self)@.len() { n as int } else { old(self)@.len() as int };
                &&& r@ == old(self)@.subrange(0, k)
                &&& final(self)@ == old(self)@.subrange(k, old(self)@.len() as int)
            }),
    {
        let k = if n < self.data.len() { n } else { self.data.len() };
        let mut rest = self.data.split_off(k);
        std::mem::swap(&mut self.data, &mut rest);
        rest
    }

    /// The byte at position `i`.
    pub fn byte_at(&self, i: usize) -> (r: u8)
        requires
            i < self@.len(),
        ensures
            r == self@[i as int],
    {
        self.data[i]
    }

    /// A copy of the bytes `from..to`.
    pub fn copy_range(&self, from: usize, to: usize) -> (r: Vec<u8>)
        requires
            from <= to <= self@.len(),
        ensures
            r@ == self@.subrange(from as int, to as int),
    {
        let mut out: Vec<u8> = Vec::new();
        let mut i = from;
        while i < to
            invariant
                from <= i <= to,
                to <= self.data@.len(),
                out@ == self.data@.subrange(from as int, i as int),
            decreases to - i,
        {
            out.push(self.data[i]);
            assert(out@ =~= self.data@.subrange(from as int, i + 1));
            i = i + 1;
        }
        out
    }

    /// The first position at or after `from` at which a non-empty `pattern` occurs.
    pub fn find_from(&self, pattern: &[u8], from: usize) -> (r: Option<usize>)
        ensures
            match r {
                Some(i) => pattern@.len() > 0 && from <= i && occurs_at(self@, pattern@, i as int)
                    && forall|j: int| from <= j < i ==> !occurs_at(self@, pattern@, j),
                None => pattern@.len() == 0 || forall|j: int|
                    from <= j <= self@.len() ==> !occurs_at(self@, pattern@, j),
            },
    {
        find_bytes(&self.data, pattern, from)
    }

    /// A copy of the bytes held.
    pub fn as_slice(&self) -> (r: Vec<u8>)
        ensures
            r@ == self@,
    {
        let mut out: Vec<u8> = Vec::new();
        out.extend_from_slice(self.data.as_slice());
        assert(out@ =~= self.data@);
        out
    }

    /// The first position at which a non-empty `pattern` occurs.
    pub fn find(&self, pattern: &[u8]) -> (r: Option<usize>)
        ensures
            match r {
                Some(i) => pattern@.len() > 0 && occurs_at(self@, pattern@, i as int) && forall|j: int|
                    0 <= j < i ==> !occurs_at(self@, pattern@, j),
                None => pattern@.len() == 0 || forall|j: int|
                    0 <= j <= self@.len() ==> !occurs_at(self@, pattern@, j),
            },
    {
        find_bytes(&self.data, pattern, 0)
    }
}

/// The first position at or after `from` at which a non-empty `pat` occurs.
pub fn find_bytes(data: &Vec<u8>, pat: &[u8], from: usize) -> (r: Option<usize>)
    ensures
        match r {
            Some(i) => pat@.len() > 0 && from <= i && occurs_at(data@, pat@, i as int) && forall|
                j: int,
            | from <= j < i ==> !occurs_at(data@, pat@, j),
            None => pat@.len() == 0 || forall|j: int|
                from <= j <= data@.len() ==> !occurs_at(data@, pat@, j),
        },
{
    let m = pat.len();
    let n = data.len();
    if m == 0 || m > n || from > n - m {
        return None;
    }
    let mut i: usize = from;
    while i <= n - m
        invariant
            m == pat@.len(),
            n == data@.len(),
            0 < m <= n,
            from <= i <= n - m + 1,
            forall|j: int| from <= j < i ==> !occurs_at(data@, pat@, j),
        decreases n - m + 1 - i,
    {
        let mut k: usize = 0;
        while k < m && data[i + k] == pat[k]
            invariant
                m == pat@.len(),
                n == data@.len(),
                i + m <= n,
                k <= m,
                forall|t: int| 0 <= t < k ==> data@[i + t] == pat@[t],
            decreases m - k,
        {
            k = k + 1;
        }
        if k == m {
            assert(data@.subrange(i as int, i + m) =~= pat@);
            return Some(i);
        }
        assert(data@.subrange(i as int, i + m)[k as int] != pat@[k as int]);
        i = i + 1;
    }
    None
}

impl Default for Buffer {
    fn default() -> (r: Buffer)
        ensures
            r@ == Seq::<u8>::empty(),
    {
        Buffer::new()
    }
}

} // verus!
