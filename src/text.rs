//! Character and byte helpers shared by the HTTP modules.
use vstd::prelude::*;
use vstd::string::*;

verus! {

/// ASCII lower-casing of one character; other characters are kept.
pub open spec fn lower_char(c: char) -> char {
    if 'A' <= c && c <= 'Z' {
        (((c as u8) + 32) as u8) as char
    } else {
        c
    }
}

/// ASCII lower-casing of a character sequence.
pub open spec fn lower(s: Seq<char>) -> Seq<char> {
    s.map_values(|c: char| lower_char(c))
}

/// Two character sequences are equal up to ASCII case.
pub open spec fn eq_nocase(a: Seq<char>, b: Seq<char>) -> bool {
    lower(a) == lower(b)
}

/// Relies on String::push: the character is appended at the end.
#[verifier::external_body]
pub(crate) fn push_char(s: &mut String, c: char)
    ensures
        final(s)@ == old(s)@.push(c),
{
    s.push(c)
}

pub fn to_lower_char(c: char) -> (r: char)
    ensures
        r == lower_char(c),
{
    if 'A' <= c && c <= 'Z' {
        ((c as u8) + 32) as char
    } else {
        c
    }
}

/// Compares two strings ignoring ASCII case.
pub fn eq_ignore_case(a: &str, b: &str) -> (r: bool)
    ensures
        r == eq_nocase(a@, b@),
{
    let n = a.unicode_len();
    let m = b.unicode_len();
    if n != m {
        assert(lower(a@).len() != lower(b@).len());
        return false;
    }
    let mut i: usize = 0;
    while i < n
        invariant
            n == a@.len(),
            m == b@.len(),
            n == m,
            i <= n,
            forall|j: int| 0 <= j < i ==> lower_char(a@[j]) == lower_char(b@[j]),
        decreases n - i,
    {
        let x = to_lower_char(a.get_char(i));
        let y = to_lower_char(b.get_char(i));
        if x != y {
            assert(lower(a@)[i as int] != lower(b@)[i as int]);
            return false;
        }
        i = i + 1;
    }
    assert(lower(a@) =~= lower(b@));
    true
}


/// The decimal digit character for a value below ten.
pub open spec fn digit_char(d: nat) -> char {
    ((48 + d) as u8) as char
}

/// The hexadecimal digit character (lower case) for a value below sixteen.
pub open spec fn hex_char(d: nat) -> char {
    if d < 10 {
        ((48 + d) as u8) as char
    } else {
        ((87 + d) as u8) as char
    }
}

/// Decimal representation of a natural number, without leading zeros.
pub open spec fn decimal(n: nat) -> Seq<char>
    decreases n,
{
    if n < 10 {
        seq![digit_char(n)]
    } else {
        decimal(n / 10).push(digit_char(n % 10))
    }
}

/// Lower-case hexadecimal representation of a natural number, without leading zeros.
pub open spec fn hex(n: nat) -> Seq<char>
    decreases n,
{
    if n < 16 {
        seq![hex_char(n)]
    } else {
        hex(n / 16).push(hex_char(n % 16))
    }
}

/// Appends the decimal representation of `n`.
pub fn push_decimal(s: &mut String, n: u64)
    ensures
        final(s)@ == old(s)@ + decimal(n as nat),
    decreases n,
{
    if n >= 10 {
        push_decimal(s, n / 10);
    }
    let d = (n % 10) as u8;
    push_char(s, (48u8 + d) as char);
    assert(final(s)@ =~= old(s)@ + decimal(n as nat));
}

/// Appends the lower-case hexadecimal representation of `n`.
pub fn push_hex(s: &mut String, n: u64)
    ensures
        final(s)@ == old(s)@ + hex(n as nat),
    decreases n,
{
    if n >= 16 {
        push_hex(s, n / 16);
    }
    let d = (n % 16) as u8;
    let c = if d < 10 { (48u8 + d) as char } else { (87u8 + d) as char };
    push_char(s, c);
    assert(final(s)@ =~= old(s)@ + hex(n as nat));
}

/// The decimal representation of `n` as a new string.
pub fn decimal_string(n: u64) -> (r: String)
    ensures
        r@ == decimal(n as nat),
{
    let mut s = String::new();
    push_decimal(&mut s, n);
    assert(s@ =~= decimal(n as nat));
    s
}

pub open spec fn is_digit(c: char) -> bool {
    '0' <= c && c <= '9'
}

pub open spec fn is_hex_digit(c: char) -> bool {
    ('0' <= c && c <= '9') || ('a' <= c && c <= 'f') || ('A' <= c && c <= 'F')
}

pub open spec fn digit_value(c: char) -> nat {
    if '0' <= c && c <= '9' {
        (c as u32 - 48) as nat
    } else if 'a' <= c && c <= 'f' {
        (c as u32 - 87) as nat
    } else {
        (c as u32 - 55) as nat
    }
}

/// The number written by a sequence of digits in the given base.
pub open spec fn digits_value(s: Seq<char>, base: nat) -> nat
    decreases s.len(),
{
    if s.len() == 0 {
        0
    } else {
        digits_value(s.drop_last(), base) * base + digit_value(s.last())
    }
}

pub open spec fn all_digits(s: Seq<char>) -> bool {
    forall|i: int| 0 <= i < s.len() ==> is_digit(#[trigger] s[i])
}

pub open spec fn all_hex_digits(s: Seq<char>) -> bool {
    forall|i: int| 0 <= i < s.len() ==> is_hex_digit(#[trigger] s[i])
}

/// A prefix never writes a larger number than the whole.
pub proof fn lemma_digits_prefix_le(s: Seq<char>, i: int, base: nat)
    requires
        0 <= i <= s.len(),
        base >= 1,
    ensures
        digits_value(s.subrange(0, i), base) <= digits_value(s, base),
    decreases s.len(),
{
    if i < s.len() {
        assert(s.drop_last().subrange(0, i) =~= s.subrange(0, i));
        lemma_digits_prefix_le(s.drop_last(), i, base);
        let v = digits_value(s.drop_last(), base);
        assert(v * base >= v) by (nonlinear_arith)
            requires base >= 1;
    } else {
        assert(s.subrange(0, i) =~= s);
    }
}

/// Reads a non-empty run of decimal digits (the whole string) as a `usize`.
pub fn parse_decimal(s: &str) -> (r: Option<usize>)
    ensures
        r == (if s@.len() > 0 && all_digits(s@) && digits_value(s@, 10) <= usize::MAX {
            Some(digits_value(s@, 10) as usize)
        } else {
            None::<usize>
        }),
{
    let n = s.unicode_len();
    if n == 0 {
        return None;
    }
    let mut v: usize = 0;
    let mut i: usize = 0;
    while i < n
        invariant
            n == s@.len(),
            i <= n,
            all_digits(s@.subrange(0, i as int)),
            v as nat == digits_value(s@.subrange(0, i as int), 10),
        decreases n - i,
    {
        let c = s.get_char(i);
        assert(s@.subrange(0, i + 1).drop_last() =~= s@.subrange(0, i as int));
        if !('0' <= c && c <= '9') {
            assert(!all_digits(s@)) by {
                assert(!is_digit(s@[i as int]));
            }
            return None;
        }
        let d = (c as u32 - 48) as usize;
        if v > (usize::MAX - d) / 10 {
            proof {
                assert(v * 10 + d > usize::MAX) by (nonlinear_arith)
                    requires v > (usize::MAX - d) / 10, d <= 9;
                lemma_digits_prefix_le(s@, i + 1, 10);
            }
            return None;
        }
        assert(v * 10 + d <= usize::MAX) by (nonlinear_arith)
            requires v <= (usize::MAX - d) / 10, d <= 9;
        v = v * 10 + d;
        i = i + 1;
        assert(all_digits(s@.subrange(0, i as int))) by {
            assert forall|j: int| 0 <= j < i implies is_digit(#[trigger] s@.subrange(0, i as int)[j]) by {
                if j < i - 1 {
                    assert(s@.subrange(0, i as int)[j] == s@.subrange(0, i - 1)[j]);
                }
            }
        }
    }
    assert(s@.subrange(0, n as int) =~= s@);
    Some(v)
}

/// Reads a non-empty run of hexadecimal digits (the whole string) as a `usize`.
pub fn parse_hex(s: &str) -> (r: Option<usize>)
    ensures
        r == (if s@.len() > 0 && all_hex_digits(s@) && digits_value(s@, 16) <= usize::MAX {
            Some(digits_value(s@, 16) as usize)
        } else {
            None::<usize>
        }),
{
    let n = s.unicode_len();
    if n == 0 {
        return None;
    }
    let mut v: usize = 0;
    let mut i: usize = 0;
    while i < n
        invariant
            n == s@.len(),
            i <= n,
            all_hex_digits(s@.subrange(0, i as int)),
            v as nat == digits_value(s@.subrange(0, i as int), 16),
        decreases n - i,
    {
        let c = s.get_char(i);
        assert(s@.subrange(0, i + 1).drop_last() =~= s@.subrange(0, i as int));
        let d: usize;
        if '0' <= c && c <= '9' {
            d = (c as u32 - 48) as usize;
        } else if 'a' <= c && c <= 'f' {
            d = (c as u32 - 87) as usize;
        } else if 'A' <= c && c <= 'F' {
            d = (c as u32 - 55) as usize;
        } else {
            assert(!all_hex_digits(s@)) by {
                assert(!is_hex_digit(s@[i as int]));
            }
            return None;
        }
        if v > (usize::MAX - d) / 16 {
            proof {
                assert(v * 16 + d > usize::MAX) by (nonlinear_arith)
                    requires v > (usize::MAX - d) / 16, d <= 15;
                lemma_digits_prefix_le(s@, i + 1, 16);
            }
            return None;
        }
        assert(v * 16 + d <= usize::MAX) by (nonlinear_arith)
            requires v <= (usize::MAX - d) / 16, d <= 15;
        v = v * 16 + d;
        i = i + 1;
        assert(all_hex_digits(s@.subrange(0, i as int))) by {
            assert forall|j: int| 0 <= j < i implies is_hex_digit(#[trigger] s@.subrange(0, i as int)[j]) by {
                if j < i - 1 {
                    assert(s@.subrange(0, i as int)[j] == s@.subrange(0, i - 1)[j]);
                }
            }
        }
    }
    assert(s@.subrange(0, n as int) =~= s@);
    Some(v)
}


/// `c` does not occur in `s` before position `i`.
pub open spec fn absent_before(s: Seq<char>, c: char, i: int) -> bool {
    forall|j: int| 0 <= j < i ==> s[j] != c
}

/// Position of the first occurrence of `c`.
pub fn find_char(s: &str, c: char) -> (r: Option<usize>)
    ensures
        match r {
            Some(i) => i < s@.len() && s@[i as int] == c && absent_before(s@, c, i as int),
            None => absent_before(s@, c, s@.len() as int),
        },
{
    let n = s.unicode_len();
    let mut i: usize = 0;
    while i < n
        invariant
            n == s@.len(),
            i <= n,
            absent_before(s@, c, i as int),
        decreases n - i,
    {
        if s.get_char(i) == c {
            return Some(i);
        }
        i = i + 1;
    }
    None
}

/// Position of the last occurrence of `c`.
pub fn rfind_char(s: &str, c: char) -> (r: Option<usize>)
    ensures
        match r {
            Some(i) => i < s@.len() && s@[i as int] == c && forall|j: int|
                i < j < s@.len() ==> s@[j] != c,
            None => absent_before(s@, c, s@.len() as int),
        },
{
    let n = s.unicode_len();
    let mut i: usize = n;
    while i > 0
        invariant
            n == s@.len(),
            i <= n,
            forall|j: int| i <= j < n ==> s@[j] != c,
        decreases i,
    {
        if s.get_char(i - 1) == c {
            return Some(i - 1);
        }
        i = i - 1;
    }
    None
}

/// A copy of the characters `from..to` of `s`.
pub fn substring(s: &str, from: usize, to: usize) -> (r: String)
    requires
        from <= to <= s@.len(),
    ensures
        r@ == s@.subrange(from as int, to as int),
{
    s.substring_char(from, to).to_owned()
}

/// `s` begins with `p`.
pub open spec fn has_prefix(s: Seq<char>, p: Seq<char>) -> bool {
    p.len() <= s.len() && s.subrange(0, p.len() as int) == p
}

pub fn starts_with(s: &str, p: &str) -> (r: bool)
    ensures
        r == has_prefix(s@, p@),
{
    let n = s.unicode_len();
    let m = p.unicode_len();
    if m > n {
        return false;
    }
    let mut i: usize = 0;
    while i < m
        invariant
            n == s@.len(),
            m == p@.len(),
            m <= n,
            i <= m,
            forall|j: int| 0 <= j < i ==> s@[j] == p@[j],
        decreases m - i,
    {
        if s.get_char(i) != p.get_char(i) {
            assert(s@.subrange(0, m as int)[i as int] != p@[i as int]);
            return false;
        }
        i = i + 1;
    }
    assert(s@.subrange(0, m as int) =~= p@);
    true
}

pub open spec fn is_ws(c: char) -> bool {
    c == ' ' || c == '\t' || c == '\r' || c == '\n'
}

/// Index of the first non-blank character (the length when all are blank).
pub open spec fn trim_lo(s: Seq<char>) -> int
    decreases s.len(),
{
    if s.len() > 0 && is_ws(s[0]) {
        1 + trim_lo(s.drop_first())
    } else {
        0
    }
}

/// `s` without its trailing blanks.
pub open spec fn trim_end(s: Seq<char>) -> Seq<char>
    decreases s.len(),
{
    if s.len() > 0 && is_ws(s.last()) {
        trim_end(s.drop_last())
    } else {
        s
    }
}

/// `s` without leading and trailing blanks.
pub open spec fn trim(s: Seq<char>) -> Seq<char> {
    trim_end(s.subrange(trim_lo(s), s.len() as int))
}

proof fn lemma_trim_lo_step(s: Seq<char>, i: int)
    requires
        0 <= i < s.len(),
        forall|j: int| 0 <= j < i ==> is_ws(s[j]),
    ensures
        trim_lo(s) == (if is_ws(s[i]) { i + 1 + trim_lo(s.subrange(i + 1, s.len() as int)) } else { i }),
    decreases i,
{
    if i > 0 {
        assert(s.drop_first().subrange(i, s.len() - 1) =~= s.subrange(i + 1, s.len() as int));
        lemma_trim_lo_step(s.drop_first(), i - 1);
    } else {
        assert(s.drop_first() =~= s.subrange(1, s.len() as int));
    }
}

proof fn lemma_trim_lo_all(s: Seq<char>)
    requires
        forall|j: int| 0 <= j < s.len() ==> is_ws(s[j]),
    ensures
        trim_lo(s) == s.len(),
    decreases s.len(),
{
    if s.len() > 0 {
        lemma_trim_lo_all(s.drop_first());
    }
}

proof fn lemma_trim_end_step(s: Seq<char>, k: int)
    requires
        0 <= k <= s.len(),
        forall|j: int| k <= j < s.len() ==> is_ws(s[j]),
    ensures
        trim_end(s) == trim_end(s.subrange(0, k)),
    decreases s.len() - k,
{
    if k < s.len() {
        assert(s.drop_last().subrange(0, k) =~= s.subrange(0, k));
        lemma_trim_end_step(s.drop_last(), k);
    } else {
        assert(s.subrange(0, k) =~= s);
    }
}

/// A copy of `s` without leading and trailing blanks.
pub fn trim_str(s: &str) -> (r: String)
    ensures
        r@ == trim(s@),
{
    let n = s.unicode_len();
    let mut lo: usize = 0;
    while lo < n && is_blank(s.get_char(lo))
        invariant
            n == s@.len(),
            lo <= n,
            forall|j: int| 0 <= j < lo ==> is_ws(s@[j]),
        decreases n - lo,
    {
        lo = lo + 1;
    }
    proof {
        if lo < n {
            lemma_trim_lo_step(s@, lo as int);
        } else {
            lemma_trim_lo_all(s@);
        }
    }
    let mut hi: usize = n;
    while hi > lo && is_blank(s.get_char(hi - 1))
        invariant
            n == s@.len(),
            lo <= hi <= n,
            forall|j: int| hi <= j < n ==> is_ws(s@[j]),
        decreases hi,
    {
        hi = hi - 1;
    }
    let ghost mid = s@.subrange(lo as int, n as int);
    proof {
        lemma_trim_end_step(mid, hi - lo);
        assert(mid.subrange(0, hi - lo) =~= s@.subrange(lo as int, hi as int));
        if hi > lo {
            assert(mid.subrange(0, hi - lo).last() == s@[hi - 1]);
        } else {
            assert(mid.subrange(0, 0).len() == 0);
        }
    }
    substring(s, lo, hi)
}

pub fn is_blank(c: char) -> (r: bool)
    ensures
        r == is_ws(c),
{
    c == ' ' || c == '\t' || c == '\r' || c == '\n'
}


/// Exact equality of two strings.
pub fn eq_str(a: &str, b: &str) -> (r: bool)
    ensures
        r == (a@ == b@),
{
    let n = a.unicode_len();
    if n != b.unicode_len() {
        return false;
    }
    let mut i: usize = 0;
    while i < n
        invariant
            n == a@.len(),
            n == b@.len(),
            i <= n,
            forall|j: int| 0 <= j < i ==> a@[j] == b@[j],
        decreases n - i,
    {
        if a.get_char(i) != b.get_char(i) {
            return false;
        }
        i = i + 1;
    }
    assert(a@ =~= b@);
    true
}

} // verus!
verus! {

/// `pat` occurs in `s` at position `i`.
pub open spec fn sub_at(s: Seq<char>, pat: Seq<char>, i: int) -> bool {
    0 <= i && i + pat.len() <= s.len() && s.subrange(i, i + pat.len()) == pat
}

/// The first position at which `pat` occurs in `s`.
pub fn find_sub(s: &str, pat: &str) -> (r: Option<usize>)
    ensures
        match r {
            Some(i) => sub_at(s@, pat@, i as int) && forall|j: int| 0 <= j < i ==> !sub_at(s@, pat@, j),
            None => forall|j: int| 0 <= j <= s@.len() ==> !sub_at(s@, pat@, j),
        },
{
    let n = s.unicode_len();
    let m = pat.unicode_len();
    if m > n {
        return None;
    }
    let mut i: usize = 0;
    while i <= n - m
        invariant
            n == s@.len(),
            m == pat@.len(),
            m <= n,
            i <= n - m + 1,
            forall|j: int| 0 <= j < i ==> !sub_at(s@, pat@, j),
        decreases n - m + 1 - i,
    {
        let mut k: usize = 0;
        while k < m && s.get_char(i + k) == pat.get_char(k)
            invariant
                n == s@.len(),
                m == pat@.len(),
                i + m <= n,
                k <= m,
                forall|t: int| 0 <= t < k ==> s@[i + t] == pat@[t],
            decreases m - k,
        {
            k = k + 1;
        }
        if k == m {
            assert(s@.subrange(i as int, i + m) =~= pat@);
            return Some(i);
        }
        assert(s@.subrange(i as int, i + m)[k as int] != pat@[k as int]);
        i = i + 1;
    }
    None
}

proof fn lemma_hex_char_inj(a: nat, b: nat)
    requires
        a < 16,
        b < 16,
        hex_char(a) == hex_char(b),
    ensures
        a == b,
{
    assert(hex_char(a) as u32 == if a < 10 { 48 + a } else { 87 + a });
    assert(hex_char(b) as u32 == if b < 10 { 48 + b } else { 87 + b });
}

/// Hex digits are never `_`, and a number of two or more digits has two or more.
pub proof fn lemma_hex_shape(n: nat)
    ensures
        hex(n).len() >= 1,
        n >= 16 ==> hex(n).len() >= 2,
        forall|i: int| 0 <= i < hex(n).len() ==> hex(n)[i] != '_',
    decreases n,
{
    let d = n % 16;
    assert(hex_char(d) as u32 == if d < 10 { 48 + d } else { 87 + d });
    if n >= 16 {
        lemma_hex_shape(n / 16);
        assert forall|i: int| 0 <= i < hex(n).len() implies hex(n)[i] != '_' by {
            if i < hex(n).len() - 1 {
                assert(hex(n)[i] == hex(n / 16)[i]);
            }
        }
    } else {
        assert(hex_char(n) as u32 == if n < 10 { 48 + n } else { 87 + n });
    }
}

/// Different numbers have different hexadecimal forms.
pub proof fn lemma_hex_injective(a: nat, b: nat)
    requires
        hex(a) == hex(b),
    ensures
        a == b,
    decreases a,
{
    lemma_hex_shape(a);
    lemma_hex_shape(b);
    if a < 16 && b < 16 {
        assert(hex(a)[0] == hex_char(a));
        lemma_hex_char_inj(a, b);
    } else if a >= 16 && b >= 16 {
        assert(hex(a).last() == hex_char(a % 16));
        assert(hex(b).last() == hex_char(b % 16));
        lemma_hex_char_inj(a % 16, b % 16);
        assert(hex(a).drop_last() =~= hex(a / 16));
        assert(hex(b).drop_last() =~= hex(b / 16));
        lemma_hex_injective(a / 16, b / 16);
    } else {
        assert(hex(a).len() != hex(b).len());
    }
}

/// A decimal form has a digit, and two or more from ten on.
pub proof fn lemma_decimal_shape(n: nat)
    ensures
        decimal(n).len() >= 1,
        n >= 10 ==> decimal(n).len() >= 2,
    decreases n,
{
    if n >= 10 {
        lemma_decimal_shape(n / 10);
    }
}

/// Different numbers have different decimal forms.
pub proof fn lemma_decimal_injective(a: nat, b: nat)
    requires
        decimal(a) == decimal(b),
    ensures
        a == b,
    decreases a,
{
    lemma_decimal_shape(a);
    lemma_decimal_shape(b);
    if a < 10 && b < 10 {
        assert(decimal(a)[0] == digit_char(a));
        assert(digit_char(a) as u32 == 48 + a);
        assert(digit_char(b) as u32 == 48 + b);
    } else if a >= 10 && b >= 10 {
        let x = a % 10;
        let y = b % 10;
        assert(decimal(a).last() == digit_char(x));
        assert(decimal(b).last() == digit_char(y));
        assert(digit_char(x) as u32 == 48 + x);
        assert(digit_char(y) as u32 == 48 + y);
        assert(decimal(a).drop_last() =~= decimal(a / 10));
        assert(decimal(b).drop_last() =~= decimal(b / 10));
        lemma_decimal_injective(a / 10, b / 10);
    } else {
        assert(decimal(a).len() != decimal(b).len());
    }
}

/// `hex(t) + "_" + hex(c)` determines `c`.
pub proof fn lemma_tagged_hex_injective(t1: nat, c1: nat, t2: nat, c2: nat)
    requires
        hex(t1) + "_"@ + hex(c1) == hex(t2) + "_"@ + hex(c2),
    ensures
        c1 == c2,
{
    reveal_strlit("_");
    lemma_hex_shape(t1);
    lemma_hex_shape(t2);
    let s = hex(t1) + "_"@ + hex(c1);
    let l1 = hex(t1).len() as int;
    let l2 = hex(t2).len() as int;
    assert(s[l1] == '_');
    assert((hex(t2) + "_"@ + hex(c2))[l2] == '_');
    if l1 < l2 {
        assert(s[l1] == hex(t2)[l1]);
    } else if l2 < l1 {
        assert(s[l2] == hex(t1)[l2]);
    }
    assert(hex(c1) =~= s.subrange(l1 + 1, s.len() as int));
    assert(hex(c2) =~= (hex(t2) + "_"@ + hex(c2)).subrange(l2 + 1, s.len() as int));
    lemma_hex_injective(c1, c2);
}

} // verus!
