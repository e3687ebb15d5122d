use vstd::prelude::*;

use crate::text::{
    chars_of, is_whitespace, is_ws, lemma_trim_end_padding, lemma_trim_start_blank, lines,
    parse_u32, parse_u32_spec, split_lines, trim, trim_end, trim_start, trimmed_part,
};

verus! {

/// One access point seen by a scan.
#[derive(Debug)]
pub struct Network {
    pub bssid: String,
    pub ssid: String,
    pub mode: String,
    pub channel: u32,
    pub rate: String,
    pub signal: u32,
    pub security: String,
}

/// What a `Network` holds, as character sequences and numbers.
pub struct NetworkView {
    pub bssid: Seq<char>,
    pub ssid: Seq<char>,
    pub mode: Seq<char>,
    pub channel: u32,
    pub rate: Seq<char>,
    pub signal: u32,
    pub security: Seq<char>,
}

impl View for Network {
    type V = NetworkView;

    open spec fn view(&self) -> NetworkView {
        NetworkView {
            bssid: self.bssid@,
            ssid: self.ssid@,
            mode: self.mode@,
            channel: self.channel,
            rate: self.rate@,
            signal: self.signal,
            security: self.security@,
        }
    }
}

/// A header column starts at position 0 and wherever a word follows whitespace.
pub open spec fn is_column_start(h: Seq<char>, i: int) -> bool {
    i == 0 || (!is_ws(h[i]) && is_ws(h[i - 1]))
}

/// The column starts among the first `n` characters of the header `h`.
pub open spec fn starts_before(h: Seq<char>, n: int) -> Seq<int>
    decreases n,
{
    if n <= 0 {
        seq![]
    } else if is_column_start(h, n - 1) {
        starts_before(h, n - 1).push(n - 1)
    } else {
        starts_before(h, n - 1)
    }
}

/// Where each column of the header `h` starts: a column is a word with the
/// whitespace that follows it.
pub open spec fn column_starts(h: Seq<char>) -> Seq<int> {
    starts_before(h, h.len() as int)
}

/// Where column `k` of the header `h` starts; a column past the last starts at
/// the end of the header.
pub open spec fn column_bound(h: Seq<char>, k: int) -> int {
    if k < column_starts(h).len() {
        column_starts(h)[k]
    } else {
        h.len() as int
    }
}

pub open spec fn min(a: int, b: int) -> int {
    if a <= b {
        a
    } else {
        b
    }
}

/// The characters of `line` in `[a, b)`, cut off where the line ends.
pub open spec fn clip(line: Seq<char>, a: int, b: int) -> Seq<char> {
    line.subrange(min(a, line.len() as int), min(b, line.len() as int))
}

/// The trimmed text of `line` under column `k` of the header `h`.
pub open spec fn field(h: Seq<char>, line: Seq<char>, k: int) -> Seq<char> {
    trim(clip(line, column_bound(h, k), column_bound(h, k + 1)))
}

/// The trimmed text of `line` from column `k` of the header `h` to the end of the line.
pub open spec fn tail_field(h: Seq<char>, line: Seq<char>, k: int) -> Seq<char> {
    trim(clip(line, column_bound(h, k), line.len() as int))
}

/// The number that `s` writes, or 0 where it writes none.
pub open spec fn number_or_zero(s: Seq<char>) -> u32 {
    match parse_u32_spec(s) {
        Some(n) => n,
        None => 0,
    }
}

/// The network that the data line `line` describes under the header `h`:
/// the columns are marker, BSSID, SSID, mode, channel, rate, signal, bars and
/// security, and security runs to the end of the line.
pub open spec fn network_of(h: Seq<char>, line: Seq<char>) -> NetworkView {
    NetworkView {
        bssid: field(h, line, 1),
        ssid: field(h, line, 2),
        mode: field(h, line, 3),
        channel: number_or_zero(field(h, line, 4)),
        rate: field(h, line, 5),
        signal: number_or_zero(field(h, line, 6)),
        security: tail_field(h, line, 8),
    }
}

proof fn lemma_starts_before(h: Seq<char>, n: int)
    requires
        0 <= n <= h.len(),
    ensures
        forall|k: int|
            0 <= k < starts_before(h, n).len() ==> 0 <= #[trigger] starts_before(h, n)[k] < n,
        forall|j: int, k: int|
            0 <= j < k < starts_before(h, n).len() ==> #[trigger] starts_before(h, n)[j]
                < #[trigger] starts_before(h, n)[k],
    decreases n,
{
    if n > 0 {
        lemma_starts_before(h, n - 1);
        let p = starts_before(h, n - 1);
        let q = starts_before(h, n);
        assert forall|k: int| 0 <= k < p.len() implies #[trigger] q[k] == p[k] by {}
        if is_column_start(h, n - 1) {
            assert(q[p.len() as int] == n - 1);
        }
    }
}

/// Column bounds never decrease and never pass the header's end.
proof fn lemma_column_bound_mono(h: Seq<char>, j: int, k: int)
    requires
        0 <= j <= k,
    ensures
        0 <= column_bound(h, j) <= column_bound(h, k) <= h.len(),
{
    lemma_starts_before(h, h.len() as int);
    let s = column_starts(h);
    if k < s.len() && j < k {
        assert(s[j] < s[k]);
    }
}

/// A channel or signal column that writes no number reads as 0, and the
/// record keeps its other fields.
pub proof fn lemma_lenient_numbers(h: Seq<char>, line: Seq<char>)
    ensures
        parse_u32_spec(field(h, line, 4)) is None ==> network_of(h, line).channel == 0,
        parse_u32_spec(field(h, line, 6)) is None ==> network_of(h, line).signal == 0,
        network_of(h, line).bssid == field(h, line, 1),
        network_of(h, line).ssid == field(h, line, 2),
        network_of(h, line).mode == field(h, line, 3),
        network_of(h, line).rate == field(h, line, 5),
        network_of(h, line).security == tail_field(h, line, 8),
{
}

/// A value written under column `k` of the header, with whitespace after it
/// to the column's end, reads back exactly where it has no whitespace at
/// either end.
pub proof fn lemma_field_round_trip(
    h: Seq<char>,
    line: Seq<char>,
    k: int,
    value: Seq<char>,
    pad: Seq<char>,
)
    requires
        0 <= k,
        column_bound(h, k + 1) <= line.len(),
        line.subrange(column_bound(h, k), column_bound(h, k + 1)) == value + pad,
        value.len() > 0 ==> !is_ws(value[0]) && !is_ws(value.last()),
        forall|i: int| 0 <= i < pad.len() ==> is_ws(#[trigger] pad[i]),
    ensures
        field(h, line, k) == value,
{
    lemma_column_bound_mono(h, k, k + 1);
    let t = value + pad;
    assert(clip(line, column_bound(h, k), column_bound(h, k + 1)) == t);
    if value.len() > 0 {
        assert(t[0] == value[0]);
        assert(trim_start(t) == t);
    } else {
        assert(t =~= pad);
        lemma_trim_start_blank(pad);
        assert(trim_end(Seq::<char>::empty()) == Seq::<char>::empty());
    }
    lemma_trim_end_padding(value, pad);
}

/// The column layout of a header: its starts and its length, in characters.
pub struct Columns {
    pub starts: Vec<usize>,
    pub width: usize,
}

impl Columns {
    /// The layout that `h` gives.
    pub open spec fn is_layout_of(&self, h: Seq<char>) -> bool {
        &&& self.width == h.len()
        &&& self.starts@.len() == column_starts(h).len()
        &&& forall|k: int|
            0 <= k < self.starts@.len() ==> self.starts@[k] == #[trigger] column_starts(h)[k]
    }

    /// The columns of the header `header`.
    pub fn of_header(header: &str) -> (r: Columns)
        ensures
            r.is_layout_of(header@),
    {
        let v = chars_of(header);
        let n: usize = v.len();
        let mut starts: Vec<usize> = Vec::new();
        let mut i: usize = 0;
        while i < n
            invariant
                n == v@.len(),
                v@ == header@,
                i <= n,
                starts@.len() == starts_before(header@, i as int).len(),
                forall|k: int|
                    0 <= k < starts@.len() ==> starts@[k] == #[trigger] starts_before(
                        header@,
                        i as int,
                    )[k],
            decreases n - i,
        {
            if i == 0 || (!is_whitespace(v[i]) && is_whitespace(v[i - 1])) {
                starts.push(i);
            }
            i = i + 1;
        }
        Columns { starts, width: n }
    }

    /// Where column `k` starts.
    pub fn bound(&self, k: usize) -> (r: usize)
        requires
            exists|h: Seq<char>| self.is_layout_of(h),
        ensures
            forall|h: Seq<char>| self.is_layout_of(h) ==> r == column_bound(h, k as int),
    {
        if k < self.starts.len() {
            self.starts[k]
        } else {
            self.width
        }
    }
}

/// The trimmed text of `line` in `[a, b)`, cut off where the line ends.
fn clipped_field(line: &str, v: &Vec<char>, a: usize, b: usize) -> (r: String)
    requires
        v@ == line@,
        a <= b,
    ensures
        r@ == trim(clip(line@, a as int, b as int)),
{
    let n: usize = v.len();
    let lo: usize = if a < n {
        a
    } else {
        n
    };
    let hi: usize = if b < n {
        b
    } else {
        n
    };
    trimmed_part(line, v, lo, hi)
}

/// The number that `s` writes, or 0 where it writes none.
pub fn parse_number_or_zero(s: &str) -> (r: u32)
    ensures
        r == number_or_zero(s@),
{
    match parse_u32(s) {
        Some(n) => n,
        None => 0,
    }
}

/// The network that the data line `line` describes under the columns `cols`.
pub fn parse_line(cols: &Columns, line: &str) -> (r: Network)
    requires
        exists|h: Seq<char>| cols.is_layout_of(h),
    ensures
        forall|h: Seq<char>| cols.is_layout_of(h) ==> r@ == network_of(h, line@),
{
    let v = chars_of(line);
    let b1 = cols.bound(1);
    let b2 = cols.bound(2);
    let b3 = cols.bound(3);
    let b4 = cols.bound(4);
    let b5 = cols.bound(5);
    let b6 = cols.bound(6);
    let b7 = cols.bound(7);
    let b8 = cols.bound(8);
    let ghost h = choose|h: Seq<char>| cols.is_layout_of(h);
    proof {
        lemma_column_bound_mono(h, 1, 2);
        lemma_column_bound_mono(h, 2, 3);
        lemma_column_bound_mono(h, 3, 4);
        lemma_column_bound_mono(h, 4, 5);
        lemma_column_bound_mono(h, 5, 6);
        lemma_column_bound_mono(h, 6, 7);
        lemma_column_bound_mono(h, 8, 8);
    }
    let sec: usize = if b8 < v.len() {
        b8
    } else {
        v.len()
    };
    let channel_text = clipped_field(line, &v, b4, b5);
    let signal_text = clipped_field(line, &v, b6, b7);
    let r = Network {
        bssid: clipped_field(line, &v, b1, b2),
        ssid: clipped_field(line, &v, b2, b3),
        mode: clipped_field(line, &v, b3, b4),
        channel: parse_number_or_zero(channel_text.as_str()),
        rate: clipped_field(line, &v, b5, b6),
        signal: parse_number_or_zero(signal_text.as_str()),
        security: clipped_field(line, &v, sec, v.len()),
    };
    proof {
        assert forall|g: Seq<char>| cols.is_layout_of(g) implies r@ == network_of(g, line@) by {
            assert(column_starts(g) =~= column_starts(h));
        }
    }
    r
}

/// One network per data line under the header `header`, in the order of the lines.
pub fn parse_networks(header: &str, data: &Vec<String>) -> (r: Vec<Network>)
    ensures
        r@.len() == data@.len(),
        forall|i: int| 0 <= i < data@.len() ==> #[trigger] r@[i]@ == network_of(header@, data@[i]@),
{
    let cols = Columns::of_header(header);
    let mut out: Vec<Network> = Vec::new();
    let mut i: usize = 0;
    while i < data.len()
        invariant
            cols.is_layout_of(header@),
            i <= data@.len(),
            out@.len() == i,
            forall|j: int| 0 <= j < i ==> #[trigger] out@[j]@ == network_of(header@, data@[j]@),
        decreases data@.len() - i,
    {
        let n = parse_line(&cols, data[i].as_str());
        out.push(n);
        i = i + 1;
    }
    out
}

/// The networks that a listing `text` describes: its first line is the header,
/// each later line one network. A listing without lines describes none.
pub open spec fn listing_of(text: Seq<char>) -> Seq<NetworkView> {
    let ls = lines(text);
    if ls.len() == 0 {
        seq![]
    } else {
        Seq::new((ls.len() - 1) as nat, |i: int| network_of(ls[0], ls[i + 1]))
    }
}

/// The networks that the listing `text` describes.
pub fn parse_listing(text: &str) -> (r: Vec<Network>)
    ensures
        r@.len() == listing_of(text@).len(),
        forall|i: int| 0 <= i < r@.len() ==> #[trigger] r@[i]@ == listing_of(text@)[i],
{
    let mut ls = split_lines(text);
    if ls.len() == 0 {
        return Vec::new();
    }
    let ghost all = ls@;
    let header = ls.remove(0);
    assert(forall|i: int| 0 <= i < ls@.len() ==> #[trigger] ls@[i] == all[i + 1]);
    parse_networks(header.as_str(), &ls)
}

} // verus!
