use vstd::prelude::*;
use vstd::std_specs::iter::IteratorSpec;
use vstd::utf8::{decode_utf8, valid_utf8};

verus! {

/// Unicode `White_Space`: the characters that `char::is_whitespace` accepts.
pub open spec fn is_ws(c: char) -> bool {
    let u: u32 = c as u32;
    (9 <= u && u <= 13) || u == 32 || u == 0x85 || u == 0xA0 || u == 0x1680 || (0x2000 <= u
        && u <= 0x200A) || u == 0x2028 || u == 0x2029 || u == 0x202F || u == 0x205F || u == 0x3000
}

pub fn is_whitespace(c: char) -> (r: bool)
    ensures
        r == is_ws(c),
{
    let u: u32 = c as u32;
    (9 <= u && u <= 13) || u == 32 || u == 0x85 || u == 0xA0 || u == 0x1680 || (0x2000 <= u
        && u <= 0x200A) || u == 0x2028 || u == 0x2029 || u == 0x202F || u == 0x205F || u == 0x3000
}

/// `s` without its leading whitespace.
pub open spec fn trim_start(s: Seq<char>) -> Seq<char>
    decreases s.len(),
{
    if s.len() > 0 && is_ws(s[0]) {
        trim_start(s.drop_first())
    } else {
        s
    }
}

/// `s` without its trailing whitespace.
pub open spec fn trim_end(s: Seq<char>) -> Seq<char>
    decreases s.len(),
{
    if s.len() > 0 && is_ws(s.last()) {
        trim_end(s.drop_last())
    } else {
        s
    }
}

/// `s` without whitespace at either end.
pub open spec fn trim(s: Seq<char>) -> Seq<char> {
    trim_end(trim_start(s))
}

/// Text that is all whitespace trims to nothing.
pub proof fn lemma_trim_start_blank(s: Seq<char>)
    requires
        forall|i: int| 0 <= i < s.len() ==> is_ws(#[trigger] s[i]),
    ensures
        trim_start(s) == Seq::<char>::empty(),
    decreases s.len(),
{
    if s.len() > 0 {
        lemma_trim_start_blank(s.drop_first());
    }
}

/// Whitespace after text that ends in no whitespace is trimmed off, and only it.
pub proof fn lemma_trim_end_padding(v: Seq<char>, pad: Seq<char>)
    requires
        v.len() == 0 || !is_ws(v.last()),
        forall|i: int| 0 <= i < pad.len() ==> is_ws(#[trigger] pad[i]),
    ensures
        trim_end(v + pad) == v,
    decreases pad.len(),
{
    if pad.len() == 0 {
        assert(v + pad =~= v);
    } else {
        assert((v + pad).drop_last() =~= v + pad.drop_last());
        lemma_trim_end_padding(v, pad.drop_last());
    }
}

/// The characters of `s`, in order.
pub fn chars_of(s: &str) -> (r: Vec<char>)
    ensures
        r@ == s@,
{
    let mut out: Vec<char> = Vec::new();
    broadcast use vstd::string::axiom_spec_iter;
    for c in i: s.chars()
        invariant
            i.seq() == s@,
            out@ == i.seq().take(i.index() as int),
    {
        out.push(c);
    }
    assert(out@ =~= s@);
    out
}

/// The bounds of the trimmed part of `v[lo..hi]`.
pub fn trim_bounds(v: &Vec<char>, lo: usize, hi: usize) -> (r: (usize, usize))
    requires
        lo <= hi <= v@.len(),
    ensures
        lo <= r.0 <= r.1 <= hi,
        v@.subrange(r.0 as int, r.1 as int) == trim(v@.subrange(lo as int, hi as int)),
{
    let mut a: usize = lo;
    while a < hi && is_whitespace(v[a])
        invariant
            lo <= a <= hi <= v@.len(),
            trim_start(v@.subrange(lo as int, hi as int)) == trim_start(
                v@.subrange(a as int, hi as int),
            ),
        decreases hi - a,
    {
        assert(v@.subrange(a as int, hi as int).drop_first() =~= v@.subrange(
            a + 1,
            hi as int,
        ));
        a = a + 1;
    }
    let mut b: usize = hi;
    while b > a && is_whitespace(v[b - 1])
        invariant
            lo <= a <= b <= hi <= v@.len(),
            trim(v@.subrange(lo as int, hi as int)) == trim_end(v@.subrange(a as int, b as int)),
        decreases b - a,
    {
        assert(v@.subrange(a as int, b as int).drop_last() =~= v@.subrange(
            a as int,
            b - 1,
        ));
        b = b - 1;
    }
    (a, b)
}

/// The trimmed text of `s[lo..hi]`, counted in characters.
pub fn trimmed_part(s: &str, v: &Vec<char>, lo: usize, hi: usize) -> (r: String)
    requires
        v@ == s@,
        lo <= hi <= v@.len(),
    ensures
        r@ == trim(s@.subrange(lo as int, hi as int)),
{
    let (a, b) = trim_bounds(v, lo, hi);
    s.substring_char(a, b).to_owned()
}

/// `s` without whitespace at either end.
pub fn trim_str(s: &str) -> (r: String)
    ensures
        r@ == trim(s@),
{
    let v = chars_of(s);
    assert(s@.subrange(0, s@.len() as int) =~= s@);
    trimmed_part(s, &v, 0, v.len())
}

/// `p` stands in `s` from position `i` on.
pub open spec fn occurs_at(s: Seq<char>, p: Seq<char>, i: int) -> bool {
    0 <= i && i + p.len() <= s.len() && s.subrange(i, i + p.len()) == p
}

/// `p` is a substring of `s` (exact and case-sensitive).
pub open spec fn contains(s: Seq<char>, p: Seq<char>) -> bool {
    exists|i: int| occurs_at(s, p, i)
}

fn occurs_at_exec(s: &Vec<char>, p: &Vec<char>, i: usize) -> (r: bool)
    requires
        i + p@.len() <= s@.len(),
    ensures
        r == occurs_at(s@, p@, i as int),
{
    let n: usize = s.len();
    let mut j: usize = 0;
    while j < p.len()
        invariant
            n == s@.len(),
            j <= p@.len(),
            i + p@.len() <= s@.len(),
            forall|k: int| 0 <= k < j ==> s@[i + k] == p@[k],
        decreases p@.len() - j,
    {
        if s[i + j] != p[j] {
            assert(s@.subrange(i as int, i + p@.len())[j as int] != p@[j as int]);
            return false;
        }
        j = j + 1;
    }
    assert(s@.subrange(i as int, i + p@.len()) =~= p@);
    true
}

/// Whether `p` is a substring of `s`.
pub fn contains_str(s: &str, p: &str) -> (r: bool)
    ensures
        r == contains(s@, p@),
{
    let sv = chars_of(s);
    let pv = chars_of(p);
    if pv.len() == 0 {
        assert(s@.subrange(0, 0) =~= p@);
        assert(occurs_at(s@, p@, 0));
        return true;
    }
    if pv.len() > sv.len() {
        return false;
    }
    let n: usize = sv.len();
    let last: usize = n - pv.len();
    let mut i: usize = 0;
    while i <= last
        invariant
            last + pv@.len() == sv@.len(),
            n == sv@.len(),
            pv@.len() > 0,
            sv@ == s@,
            pv@ == p@,
            forall|k: int| 0 <= k < i ==> !occurs_at(s@, p@, k),
        decreases last + 1 - i,
    {
        if occurs_at_exec(&sv, &pv, i) {
            return true;
        }
        i = i + 1;
    }
    false
}

pub open spec fn is_digit(c: char) -> bool {
    48 <= (c as u32) && (c as u32) <= 57
}

pub open spec fn digit_value(c: char) -> nat {
    ((c as u32) - 48) as nat
}

pub open spec fn all_digits(s: Seq<char>) -> bool {
    forall|i: int| 0 <= i < s.len() ==> is_digit(#[trigger] s[i])
}

/// The number that the decimal digits `s` write.
pub open spec fn digits_value(s: Seq<char>) -> nat
    decreases s.len(),
{
    if s.len() == 0 {
        0
    } else {
        digits_value(s.drop_last()) * 10 + digit_value(s.last())
    }
}

/// `s` without one leading `+`.
pub open spec fn unsigned_digits(s: Seq<char>) -> Seq<char> {
    if s.len() > 0 && s[0] == '+' {
        s.drop_first()
    } else {
        s
    }
}

/// The `u32` that `s` writes in decimal, with an optional leading `+`,
/// or `None` where `s` writes none.
pub open spec fn parse_u32_spec(s: Seq<char>) -> Option<u32> {
    let d = unsigned_digits(s);
    if d.len() > 0 && all_digits(d) && digits_value(d) <= u32::MAX {
        Some(digits_value(d) as u32)
    } else {
        None
    }
}

proof fn lemma_digits_prefix_le(s: Seq<char>, k: int)
    requires
        0 <= k <= s.len(),
    ensures
        digits_value(s.take(k)) <= digits_value(s),
    decreases s.len(),
{
    if k < s.len() {
        lemma_digits_prefix_le(s.drop_last(), k);
        assert(s.drop_last().take(k) =~= s.take(k));
    } else {
        assert(s.take(k) =~= s);
    }
}

/// The `u32` that `s` writes in decimal, as `str::parse::<u32>` reads it.
pub fn parse_u32(s: &str) -> (r: Option<u32>)
    ensures
        r == parse_u32_spec(s@),
{
    let v = chars_of(s);
    let ghost d = unsigned_digits(s@);
    let start: usize = if v.len() > 0 && v[0] == '+' {
        1
    } else {
        0
    };
    assert(d =~= v@.subrange(start as int, v@.len() as int));
    if start == v.len() {
        return None;
    }
    let mut acc: u64 = 0;
    let mut i: usize = start;
    while i < v.len()
        invariant
            start <= i <= v@.len(),
            v@ == s@,
            d == v@.subrange(start as int, v@.len() as int),
            d == unsigned_digits(s@),
            all_digits(d.take(i - start)),
            acc == digits_value(d.take(i - start)),
            acc <= u32::MAX,
        decreases v@.len() - i,
    {
        let c = v[i];
        let u: u32 = c as u32;
        assert(d[i - start] == c);
        if !(48 <= u && u <= 57) {
            assert(!is_digit(d[i - start]));
            assert(!all_digits(d));
            return None;
        }
        let ghost t = d.take(i + 1 - start);
        assert(t.drop_last() =~= d.take(i - start));
        assert(t.last() == c);
        assert(digits_value(t) == digits_value(t.drop_last()) * 10 + digit_value(c));
        assert forall|k: int| 0 <= k < t.len() implies is_digit(#[trigger] t[k]) by {
            if k < t.len() - 1 {
                assert(t[k] == d.take(i - start)[k]);
            }
        }
        acc = acc * 10 + (u - 48) as u64;
        i = i + 1;
        if acc > 0xFFFF_FFFF {
            proof {
                lemma_digits_prefix_le(d, i - start);
            }
            return None;
        }
    }
    assert(d.take(i - start) =~= d);
    Some(acc as u32)
}

/// Positions of the line feeds among the first `n` characters of `s`.
pub open spec fn feeds_before(s: Seq<char>, n: int) -> Seq<int>
    decreases n,
{
    if n <= 0 {
        seq![]
    } else if s[n - 1] == '\n' {
        feeds_before(s, n - 1).push(n - 1)
    } else {
        feeds_before(s, n - 1)
    }
}

pub open spec fn feeds(s: Seq<char>) -> Seq<int> {
    feeds_before(s, s.len() as int)
}

/// Where line `k` of `s` starts.
pub open spec fn line_start(s: Seq<char>, k: int) -> int {
    if k == 0 {
        0
    } else {
        feeds(s)[k - 1] + 1
    }
}

/// The number of lines: one per line feed, and one for text after the last.
pub open spec fn line_count(s: Seq<char>) -> nat {
    feeds(s).len() + if line_start(s, feeds(s).len() as int) < s.len() {
        1nat
    } else {
        0nat
    }
}

/// Line `k` of `s`, without its line feed and without a carriage return before it.
pub open spec fn line_at(s: Seq<char>, k: int) -> Seq<char> {
    if k < feeds(s).len() {
        let raw = s.subrange(line_start(s, k), feeds(s)[k]);
        if raw.len() > 0 && raw.last() == '\r' {
            raw.drop_last()
        } else {
            raw
        }
    } else {
        s.subrange(line_start(s, k), s.len() as int)
    }
}

/// The lines of `s`, as `str::lines` gives them.
pub open spec fn lines(s: Seq<char>) -> Seq<Seq<char>> {
    Seq::new(line_count(s), |k: int| line_at(s, k))
}

proof fn lemma_feeds_before(s: Seq<char>, n: int)
    requires
        0 <= n <= s.len(),
    ensures
        forall|k: int|
            0 <= k < feeds_before(s, n).len() ==> 0 <= #[trigger] feeds_before(s, n)[k] < n
                && s[feeds_before(s, n)[k]] == '\n',
        forall|j: int, k: int|
            0 <= j < k < feeds_before(s, n).len() ==> #[trigger] feeds_before(s, n)[j]
                < #[trigger] feeds_before(s, n)[k],
    decreases n,
{
    if n > 0 {
        lemma_feeds_before(s, n - 1);
        let p = feeds_before(s, n - 1);
        let q = feeds_before(s, n);
        assert forall|k: int| 0 <= k < p.len() implies #[trigger] q[k] == p[k] by {}
        if s[n - 1] == '\n' {
            assert(q[p.len() as int] == n - 1);
        }
    }
}

/// The lines of `s`.
pub fn split_lines(s: &str) -> (r: Vec<String>)
    ensures
        r@.len() == lines(s@).len(),
        forall|k: int| 0 <= k < r@.len() ==> #[trigger] r@[k]@ == lines(s@)[k],
{
    let v = chars_of(s);
    let n: usize = v.len();
    let mut f: Vec<usize> = Vec::new();
    let mut i: usize = 0;
    while i < n
        invariant
            n == v@.len(),
            v@ == s@,
            i <= n,
            f@.len() == feeds_before(s@, i as int).len(),
            forall|k: int| 0 <= k < f@.len() ==> f@[k] == feeds_before(s@, i as int)[k],
        decreases n - i,
    {
        if v[i] == '\n' {
            f.push(i);
        }
        i = i + 1;
    }
    proof {
        lemma_feeds_before(s@, n as int);
    }
    let ghost fs = feeds(s@);
    let mut out: Vec<String> = Vec::new();
    let mut start: usize = 0;
    let mut k: usize = 0;
    while k < f.len()
        invariant
            n == v@.len(),
            v@ == s@,
            fs == feeds(s@),
            f@.len() == fs.len(),
            forall|j: int| 0 <= j < f@.len() ==> f@[j] == fs[j],
            forall|j: int| 0 <= j < fs.len() ==> 0 <= #[trigger] fs[j] < n && s@[fs[j]] == '\n',
            forall|j: int, l: int| 0 <= j < l < fs.len() ==> #[trigger] fs[j] < #[trigger] fs[l],
            k <= f@.len(),
            start == line_start(s@, k as int),
            k > 0 ==> start <= n,
            out@.len() == k,
            forall|j: int| 0 <= j < k ==> #[trigger] out@[j]@ == line_at(s@, j),
        decreases f@.len() - k,
    {
        let mut end: usize = f[k];
        assert(f@[k as int] == fs[k as int]);
        assert(end < n);
        assert(start <= end) by {
            if k > 0 {
                assert(fs[k - 1] < fs[k as int]);
            }
        }
        if end > start && v[end - 1] == '\r' {
            end = end - 1;
        }
        let line = s.substring_char(start, end).to_owned();
        proof {
            let raw = s@.subrange(start as int, fs[k as int]);
            if raw.len() > 0 && raw.last() == '\r' {
                assert(raw.drop_last() =~= s@.subrange(start as int, end as int));
            }
        }
        out.push(line);
        start = f[k] + 1;
        k = k + 1;
    }
    if start < n {
        out.push(s.substring_char(start, n).to_owned());
    }
    assert(out@.len() == lines(s@).len());
    out
}

/// The text that `b` encodes in UTF-8, or `None` where `b` is no valid UTF-8.
/// Relies on `String::from_utf8`, which accepts exactly the valid UTF-8
/// sequences and keeps the characters they encode.
#[verifier::external_body]
pub(crate) fn utf8_text(b: Vec<u8>) -> (r: Option<String>)
    ensures
        r is Some <==> valid_utf8(b@),
        r is Some ==> r->0@ == decode_utf8(b@),
{
    String::from_utf8(b).ok()
}

} // verus!
