//! Extraction of hourly price points from the upstream publication
//! document. The document is element-structured text; the scanner pulls
//! the `TimeSeries` / `Period` structure out of it, and the mapper turns
//! each period into points: the instant is the period start plus
//! `position - 1` hours, the price rides along as its decimal text. A
//! malformed period is dropped, never fatal; missing fields default to
//! empty or zero.

use vstd::prelude::*;
use vstd::slice::slice_subrange;
use vstd::slice::slice_to_vec;

use crate::timefmt::parse_iso_minute;
use crate::timefmt::spec_all_digits;
use crate::timefmt::spec_dec_val;
use crate::timefmt::spec_is_digit;
use crate::timefmt::spec_iso_ms;
use crate::timefmt::spec_iso_ok;

verus! {

/// The bytes of the element name `type`.
pub open spec fn spec_tag_type() -> Seq<u8> {
    seq![116u8, 121u8, 112u8, 101u8]
}

/// The bytes of the element name `TimeSeries`.
pub open spec fn spec_tag_timeseries() -> Seq<u8> {
    seq![84u8, 105u8, 109u8, 101u8, 83u8, 101u8, 114u8, 105u8, 101u8, 115u8]
}

/// The bytes of the element name `Period`.
pub open spec fn spec_tag_period() -> Seq<u8> {
    seq![80u8, 101u8, 114u8, 105u8, 111u8, 100u8]
}

/// The bytes of the element name `timeInterval`.
pub open spec fn spec_tag_interval() -> Seq<u8> {
    seq![116u8, 105u8, 109u8, 101u8, 73u8, 110u8, 116u8, 101u8, 114u8, 118u8, 97u8, 108u8]
}

/// The bytes of the element name `start`.
pub open spec fn spec_tag_start() -> Seq<u8> {
    seq![115u8, 116u8, 97u8, 114u8, 116u8]
}

/// The bytes of the element name `end`.
pub open spec fn spec_tag_end() -> Seq<u8> {
    seq![101u8, 110u8, 100u8]
}

/// The bytes of the element name `Point`.
pub open spec fn spec_tag_point() -> Seq<u8> {
    seq![80u8, 111u8, 105u8, 110u8, 116u8]
}

/// The bytes of the element name `position`.
pub open spec fn spec_tag_position() -> Seq<u8> {
    seq![112u8, 111u8, 115u8, 105u8, 116u8, 105u8, 111u8, 110u8]
}

/// The bytes of the element name `price.amount`.
pub open spec fn spec_tag_price() -> Seq<u8> {
    seq![112u8, 114u8, 105u8, 99u8, 101u8, 46u8, 97u8, 109u8, 111u8, 117u8, 110u8, 116u8]
}

/// The element name `type`.
fn tag_type() -> (r: Vec<u8>)
    ensures
        r@ == spec_tag_type(),
{
    let r: Vec<u8> = vec![116u8, 121u8, 112u8, 101u8];
    r
}

/// The element name `TimeSeries`.
fn tag_timeseries() -> (r: Vec<u8>)
    ensures
        r@ == spec_tag_timeseries(),
{
    let r: Vec<u8> = vec![84u8, 105u8, 109u8, 101u8, 83u8, 101u8, 114u8, 105u8, 101u8, 115u8];
    r
}

/// The element name `Period`.
fn tag_period() -> (r: Vec<u8>)
    ensures
        r@ == spec_tag_period(),
{
    let r: Vec<u8> = vec![80u8, 101u8, 114u8, 105u8, 111u8, 100u8];
    r
}

/// The element name `timeInterval`.
fn tag_interval() -> (r: Vec<u8>)
    ensures
        r@ == spec_tag_interval(),
{
    let r: Vec<u8> = vec![
        116u8,
        105u8,
        109u8,
        101u8,
        73u8,
        110u8,
        116u8,
        101u8,
        114u8,
        118u8,
        97u8,
        108u8,
    ];
    r
}

/// The element name `start`.
fn tag_start() -> (r: Vec<u8>)
    ensures
        r@ == spec_tag_start(),
{
    let r: Vec<u8> = vec![115u8, 116u8, 97u8, 114u8, 116u8];
    r
}

/// The element name `end`.
fn tag_end() -> (r: Vec<u8>)
    ensures
        r@ == spec_tag_end(),
{
    let r: Vec<u8> = vec![101u8, 110u8, 100u8];
    r
}

/// The element name `Point`.
fn tag_point() -> (r: Vec<u8>)
    ensures
        r@ == spec_tag_point(),
{
    let r: Vec<u8> = vec![80u8, 111u8, 105u8, 110u8, 116u8];
    r
}

/// The element name `position`.
fn tag_position() -> (r: Vec<u8>)
    ensures
        r@ == spec_tag_position(),
{
    let r: Vec<u8> = vec![112u8, 111u8, 115u8, 105u8, 116u8, 105u8, 111u8, 110u8];
    r
}

/// The element name `price.amount`.
fn tag_price() -> (r: Vec<u8>)
    ensures
        r@ == spec_tag_price(),
{
    let r: Vec<u8> = vec![
        112u8,
        114u8,
        105u8,
        99u8,
        101u8,
        46u8,
        97u8,
        109u8,
        111u8,
        117u8,
        110u8,
        116u8,
    ];
    r
}

/// Position of the first occurrence of `n` in `h` at or after `from`.
pub open spec fn spec_find(h: Seq<u8>, n: Seq<u8>, from: int) -> Option<int>
    decreases h.len() - from + 1,
{
    if from < 0 || from + n.len() > h.len() {
        None
    } else if h.subrange(from, from + n.len() as int) == n {
        Some(from)
    } else {
        spec_find(h, n, from + 1)
    }
}

/// What a found position means: it is in range, at or after `from`, and
/// the needle matches there.
pub proof fn lemma_find_props(h: Seq<u8>, n: Seq<u8>, from: int)
    ensures
        spec_find(h, n, from) matches Some(p) ==> from <= p && 0 <= p && p + n.len() <= h.len()
            && h.subrange(p, p + n.len() as int) == n,
    decreases h.len() - from + 1,
{
    if !(from < 0 || from + n.len() > h.len()) {
        if h.subrange(from, from + n.len() as int) == n {
        } else {
            lemma_find_props(h, n, from + 1);
        }
    }
}

/// First occurrence of `n` in `h` at or after `from`.
fn find_sub(h: &[u8], n: &[u8], from: usize) -> (r: Option<usize>)
    ensures
        r is Some <==> spec_find(h@, n@, from as int) is Some,
        r matches Some(p) ==> spec_find(h@, n@, from as int) == Some(p as int),
{
    let nlen = n.len();
    let hlen = h.len();
    if nlen > hlen || from > hlen - nlen {
        return None;
    }
    let mut i: usize = from;
    while i <= hlen - nlen
        invariant
            from <= i <= hlen - nlen + 1,
            nlen <= hlen,
            nlen == n@.len(),
            hlen == h@.len(),
            spec_find(h@, n@, from as int) == spec_find(h@, n@, i as int),
        decreases hlen - i,
    {
        let mut j: usize = 0;
        while j < nlen && h[i + j] == n[j]
            invariant
                0 <= j <= nlen,
                i + nlen <= hlen,
                nlen == n@.len(),
                hlen == h@.len(),
                forall|k: int| 0 <= k < j ==> h@[i + k] == n@[k],
            decreases nlen - j,
        {
            j = j + 1;
        }
        if j == nlen {
            proof {
                assert(h@.subrange(i as int, i + nlen as int) =~= n@);
            }
            return Some(i);
        }
        proof {
            assert(h@.subrange(i as int, i + nlen as int)[j as int] == h@[i + j]);
            assert(h@.subrange(i as int, i + nlen as int) != n@);
        }
        i = i + 1;
    }
    None
}

/// The opening pattern of an element without attributes: `<name>`.
pub open spec fn spec_open_pat(tag: Seq<u8>) -> Seq<u8> {
    seq![60u8] + tag + seq![62u8]
}

/// The closing pattern of an element: `</name>`.
pub open spec fn spec_close_pat(tag: Seq<u8>) -> Seq<u8> {
    seq![60u8, 47u8] + tag + seq![62u8]
}

/// The first `<tag>` ... `</tag>` block at or after `from`: content start,
/// content end, and where the scan continues.
pub open spec fn spec_first_block(h: Seq<u8>, tag: Seq<u8>, from: int) -> Option<(int, int, int)> {
    match spec_find(h, spec_open_pat(tag), from) {
        None => None,
        Some(p) => {
            let cs = p + tag.len() + 2;
            match spec_find(h, spec_close_pat(tag), cs) {
                None => None,
                Some(q) => Some((cs, q, q + tag.len() + 3)),
            }
        },
    }
}

/// A found block lies within the text and past `from`.
pub proof fn lemma_first_block_bounds(h: Seq<u8>, tag: Seq<u8>, from: int)
    ensures
        spec_first_block(h, tag, from) matches Some(b) ==> from < b.0 && 0 <= b.0 && b.0 <= b.1
            && b.1 <= h.len() && from < b.2 && b.2 <= h.len(),
{
    lemma_find_props(h, spec_open_pat(tag), from);
    match spec_find(h, spec_open_pat(tag), from) {
        None => {},
        Some(p) => {
            let cs = p + tag.len() + 2;
            lemma_find_props(h, spec_close_pat(tag), cs);
        },
    }
}

/// The first `<tag>` ... `</tag>` block at or after `from`.
fn first_block(h: &[u8], tag: &[u8], from: usize) -> (r: Option<(usize, usize, usize)>)
    ensures
        r is Some <==> spec_first_block(h@, tag@, from as int) is Some,
        r matches Some(b) ==> spec_first_block(h@, tag@, from as int) == Some(
            (b.0 as int, b.1 as int, b.2 as int),
        ),
        r matches Some(b) ==> from < b.0 && b.0 <= b.1 && b.1 <= h@.len() && from < b.2 && b.2
            <= h@.len(),
{
    proof {
        lemma_first_block_bounds(h@, tag@, from as int);
    }
    let hl = h.len();
    let mut open_pat: Vec<u8> = Vec::new();
    open_pat.push(60);
    open_pat.extend_from_slice(tag);
    open_pat.push(62);
    proof {
        assert(open_pat@ =~= spec_open_pat(tag@));
    }
    let mut close_pat: Vec<u8> = Vec::new();
    close_pat.push(60);
    close_pat.push(47);
    close_pat.extend_from_slice(tag);
    close_pat.push(62);
    proof {
        assert(close_pat@ =~= spec_close_pat(tag@));
    }
    match find_sub(h, open_pat.as_slice(), from) {
        None => None,
        Some(p) => {
            proof {
                lemma_find_props(h@, spec_open_pat(tag@), from as int);
                assert(spec_open_pat(tag@).len() == tag@.len() + 2);
                assert(p + tag@.len() + 2 <= hl);
            }
            let cs = p + tag.len() + 2;
            match find_sub(h, close_pat.as_slice(), cs) {
                None => None,
                Some(q) => {
                    proof {
                        lemma_find_props(h@, spec_close_pat(tag@), cs as int);
                    }
                    Some((cs, q, q + tag.len() + 3))
                },
            }
        },
    }
}

/// Contents of the successive `<tag>` ... `</tag>` blocks of `h`, starting
/// at `from`.
pub open spec fn spec_blocks_of(h: Seq<u8>, tag: Seq<u8>, from: int) -> Seq<Seq<u8>>
    decreases h.len() - from,
{
    if from < 0 || from >= h.len() {
        Seq::empty()
    } else {
        match spec_first_block(h, tag, from) {
            None => Seq::empty(),
            Some(b) => {
                let nx = if b.2 <= from {
                    from + 1
                } else if b.2 > h.len() {
                    h.len() as int
                } else {
                    b.2
                };
                seq![h.subrange(b.0, b.1)] + spec_blocks_of(h, tag, nx)
            },
        }
    }
}

/// The views of a list of byte vectors, in order.
pub open spec fn spec_views(s: Seq<Vec<u8>>) -> Seq<Seq<u8>> {
    Seq::new(s.len(), |i: int| s[i]@)
}

/// Contents of the successive `<tag>` ... `</tag>` blocks of `h`.
fn blocks_of(h: &[u8], tag: &[u8]) -> (r: Vec<Vec<u8>>)
    ensures
        spec_views(r@) == spec_blocks_of(h@, tag@, 0),
{
    let mut out: Vec<Vec<u8>> = Vec::new();
    let mut cur: usize = 0;
    if h.len() == 0 {
        proof {
            assert(spec_views(out@) =~= spec_blocks_of(h@, tag@, 0));
        }
        return out;
    }
    while cur < h.len()
        invariant
            0 <= cur <= h@.len(),
            spec_blocks_of(h@, tag@, 0) == spec_views(out@) + spec_blocks_of(
                h@,
                tag@,
                cur as int,
            ),
        decreases h@.len() - cur,
    {
        match first_block(h, tag, cur) {
            None => {
                proof {
                    assert(spec_blocks_of(h@, tag@, cur as int) =~= Seq::<Seq<u8>>::empty());
                    assert(spec_views(out@) =~= spec_views(out@) + spec_blocks_of(
                        h@,
                        tag@,
                        cur as int,
                    ));
                }
                return out;
            },
            Some((cs, ce, next)) => {
                let ghost out0 = spec_views(out@);
                let content = slice_to_vec(slice_subrange(h, cs, ce));
                out.push(content);
                proof {
                    assert(spec_views(out@) =~= out0 + seq![h@.subrange(cs as int, ce as int)]);
                    assert(spec_blocks_of(h@, tag@, cur as int) == seq![
                        h@.subrange(cs as int, ce as int),
                    ] + spec_blocks_of(h@, tag@, next as int));
                    assert(spec_views(out@) + spec_blocks_of(h@, tag@, next as int) =~= out0 + (seq![
                        h@.subrange(cs as int, ce as int),
                    ] + spec_blocks_of(h@, tag@, next as int)));
                }
                cur = next;
            },
        }
    }
    proof {
        assert(spec_blocks_of(h@, tag@, cur as int) =~= Seq::<Seq<u8>>::empty());
        assert(spec_views(out@) =~= spec_views(out@) + spec_blocks_of(h@, tag@, cur as int));
    }
    out
}

/// The content of the first `<tag>` ... `</tag>` block of `h`, empty when
/// there is none.
pub open spec fn spec_field(h: Seq<u8>, tag: Seq<u8>) -> Seq<u8> {
    match spec_first_block(h, tag, 0) {
        None => Seq::empty(),
        Some(b) => h.subrange(b.0, b.1),
    }
}

/// The content of the first `<tag>` ... `</tag>` block of `h`.
fn field_of(h: &[u8], tag: &[u8]) -> (r: Vec<u8>)
    ensures
        r@ == spec_field(h@, tag@),
{
    match first_block(h, tag, 0) {
        None => Vec::new(),
        Some((cs, ce, _next)) => slice_to_vec(slice_subrange(h, cs, ce)),
    }
}

/// One `Point` element: its `position` and `price.amount` contents, raw.
pub struct EntsoePoint {
    /// Decimal text of the 1-based position within the period.
    pub position: Vec<u8>,
    /// Decimal text of the price.
    pub price: Vec<u8>,
}

/// A period's `timeInterval` element: its `start` and `end` contents.
pub struct EntsoeInterval {
    /// The interval's start instant, as `YYYY-MM-DDTHH:MMZ` text.
    pub start: Vec<u8>,
    /// The interval's end instant, same form.
    pub end: Vec<u8>,
}

/// One `Period` element: its interval and points.
pub struct EntsoePeriod {
    /// The period's time interval.
    pub time_interval: EntsoeInterval,
    /// The period's points, in document order.
    pub points: Vec<EntsoePoint>,
}

/// One `TimeSeries` element: its periods.
pub struct EntsoeTimeseries {
    /// The series' periods, in document order.
    pub periods: Vec<EntsoePeriod>,
}

/// The publication document: its type and its time series.
pub struct EntsoeDoc {
    /// Content of the document's `type` element, empty when absent.
    pub doc_type: Vec<u8>,
    /// The document's time series, in document order.
    pub timeseries: Vec<EntsoeTimeseries>,
}

/// `p` holds exactly the field contents of the point text `b`.
pub open spec fn parses_point(b: Seq<u8>, p: EntsoePoint) -> bool {
    &&& p.position@ == spec_field(b, spec_tag_position())
    &&& p.price@ == spec_field(b, spec_tag_price())
}

/// `iv` holds exactly the interval contents of the period text `b`.
pub open spec fn parses_interval(b: Seq<u8>, iv: EntsoeInterval) -> bool {
    let tb = spec_field(b, spec_tag_interval());
    &&& iv.start@ == spec_field(tb, spec_tag_start())
    &&& iv.end@ == spec_field(tb, spec_tag_end())
}

/// `p` holds exactly the interval and points of the period text `b`.
pub open spec fn parses_period(b: Seq<u8>, p: EntsoePeriod) -> bool {
    &&& parses_interval(b, p.time_interval)
    &&& p.points@.len() == spec_blocks_of(b, spec_tag_point(), 0).len()
    &&& forall|k: int|
        0 <= k < p.points@.len() ==> parses_point(
            spec_blocks_of(b, spec_tag_point(), 0)[k],
            #[trigger] p.points@[k],
        )
}

/// `t` holds exactly the periods of the series text `b`.
pub open spec fn parses_timeseries(b: Seq<u8>, t: EntsoeTimeseries) -> bool {
    &&& t.periods@.len() == spec_blocks_of(b, spec_tag_period(), 0).len()
    &&& forall|k: int|
        0 <= k < t.periods@.len() ==> parses_period(
            spec_blocks_of(b, spec_tag_period(), 0)[k],
            #[trigger] t.periods@[k],
        )
}

/// `d` holds exactly the type and time series of the document text `h`.
pub open spec fn parses_doc(h: Seq<u8>, d: EntsoeDoc) -> bool {
    &&& d.doc_type@ == spec_field(h, spec_tag_type())
    &&& d.timeseries@.len() == spec_blocks_of(h, spec_tag_timeseries(), 0).len()
    &&& forall|k: int|
        0 <= k < d.timeseries@.len() ==> parses_timeseries(
            spec_blocks_of(h, spec_tag_timeseries(), 0)[k],
            #[trigger] d.timeseries@[k],
        )
}

/// Extract one point's fields from its element text.
fn parse_point(b: &[u8]) -> (r: EntsoePoint)
    ensures
        parses_point(b@, r),
{
    let position = field_of(b, tag_position().as_slice());
    let price = field_of(b, tag_price().as_slice());
    EntsoePoint { position, price }
}

/// Extract one period's interval and points from its element text.
fn parse_period(b: &[u8]) -> (r: EntsoePeriod)
    ensures
        parses_period(b@, r),
{
    let tb = field_of(b, tag_interval().as_slice());
    let start = field_of(tb.as_slice(), tag_start().as_slice());
    let end = field_of(tb.as_slice(), tag_end().as_slice());
    let blocks = blocks_of(b, tag_point().as_slice());
    let mut points: Vec<EntsoePoint> = Vec::new();
    let mut k: usize = 0;
    while k < blocks.len()
        invariant
            0 <= k <= blocks@.len(),
            spec_views(blocks@) == spec_blocks_of(b@, spec_tag_point(), 0),
            points@.len() == k,
            forall|j: int|
                0 <= j < k ==> parses_point(
                    spec_blocks_of(b@, spec_tag_point(), 0)[j],
                    #[trigger] points@[j],
                ),
        decreases blocks@.len() - k,
    {
        proof {
            assert(spec_views(blocks@)[k as int] == blocks@[k as int]@);
        }
        let p = parse_point(blocks[k].as_slice());
        points.push(p);
        k = k + 1;
    }
    EntsoePeriod { time_interval: EntsoeInterval { start, end }, points }
}

/// Extract one time series' periods from its element text.
fn parse_timeseries(b: &[u8]) -> (r: EntsoeTimeseries)
    ensures
        parses_timeseries(b@, r),
{
    let blocks = blocks_of(b, tag_period().as_slice());
    let mut periods: Vec<EntsoePeriod> = Vec::new();
    let mut k: usize = 0;
    while k < blocks.len()
        invariant
            0 <= k <= blocks@.len(),
            spec_views(blocks@) == spec_blocks_of(b@, spec_tag_period(), 0),
            periods@.len() == k,
            forall|j: int|
                0 <= j < k ==> parses_period(
                    spec_blocks_of(b@, spec_tag_period(), 0)[j],
                    #[trigger] periods@[j],
                ),
        decreases blocks@.len() - k,
    {
        proof {
            assert(spec_views(blocks@)[k as int] == blocks@[k as int]@);
        }
        let p = parse_period(blocks[k].as_slice());
        periods.push(p);
        k = k + 1;
    }
    EntsoeTimeseries { periods }
}

/// Extract the document structure from the publication text: the `type`
/// content and every `TimeSeries` with its `Period`s, their intervals and
/// points, all fields raw.
pub fn parse_document(h: &[u8]) -> (r: EntsoeDoc)
    ensures
        parses_doc(h@, r),
{
    let doc_type = field_of(h, tag_type().as_slice());
    let blocks = blocks_of(h, tag_timeseries().as_slice());
    let mut timeseries: Vec<EntsoeTimeseries> = Vec::new();
    let mut k: usize = 0;
    while k < blocks.len()
        invariant
            0 <= k <= blocks@.len(),
            spec_views(blocks@) == spec_blocks_of(h@, spec_tag_timeseries(), 0),
            timeseries@.len() == k,
            forall|j: int|
                0 <= j < k ==> parses_timeseries(
                    spec_blocks_of(h@, spec_tag_timeseries(), 0)[j],
                    #[trigger] timeseries@[j],
                ),
        decreases blocks@.len() - k,
    {
        proof {
            assert(spec_views(blocks@)[k as int] == blocks@[k as int]@);
        }
        let t = parse_timeseries(blocks[k].as_slice());
        timeseries.push(t);
        k = k + 1;
    }
    EntsoeDoc { doc_type, timeseries }
}


/// The position a point's `position` text denotes: zero when the field is
/// missing, its decimal value when that fits, nothing otherwise.
pub open spec fn spec_pos_val(b: Seq<u8>) -> Option<int> {
    if b.len() == 0 {
        Some(0)
    } else if spec_all_digits(b) && spec_dec_val(b) <= u32::MAX {
        Some(spec_dec_val(b))
    } else {
        None
    }
}

/// Parse a point's `position` text.
fn parse_pos(b: &[u8]) -> (r: Option<u32>)
    ensures
        r is Some <==> spec_pos_val(b@) is Some,
        r matches Some(v) ==> spec_pos_val(b@) == Some(v as int),
{
    if b.len() == 0 {
        return Some(0);
    }
    let mut acc: u64 = 0;
    let mut i: usize = 0;
    while i < b.len()
        invariant
            0 <= i <= b@.len(),
            acc as int == spec_dec_val(b@.take(i as int)),
            acc <= u32::MAX,
            spec_all_digits(b@.take(i as int)),
        decreases b@.len() - i,
    {
        let x = b[i];
        proof {
            assert(b@.take(i + 1).drop_last() =~= b@.take(i as int));
            assert(b@.take(i + 1).last() == b@[i as int]);
            assert(forall|k: int| 0 <= k < i + 1 ==> b@.take(i + 1)[k] == b@[k]);
        }
        if !(48 <= x && x <= 57) {
            proof {
                assert(!spec_is_digit(b@[i as int]));
                assert(!spec_all_digits(b@));
            }
            return None;
        }
        let acc2: u64 = acc * 10 + ((x - 48) as u64);
        if acc2 > u32::MAX as u64 {
            proof {
                if spec_all_digits(b@) {
                    crate::timefmt::lemma_dec_val_prefix_pub(b@, i + 1);
                }
            }
            return None;
        }
        acc = acc2;
        i = i + 1;
    }
    proof {
        assert(b@.take(b@.len() as int) =~= b@);
    }
    Some(acc as u32)
}

/// The body of a decimal number: digits with at most one decimal point
/// among them, and at least one digit.
pub open spec fn spec_dec_body_ok(c: Seq<u8>) -> bool {
    &&& c.len() > 0
    &&& forall|i: int| 0 <= i < c.len() ==> spec_is_digit(#[trigger] c[i]) || c[i] == 46
    &&& exists|i: int| 0 <= i < c.len() && spec_is_digit(#[trigger] c[i])
    &&& forall|i: int, j: int|
        #![trigger c[i], c[j]]
        0 <= i < j < c.len() ==> !(c[i] == 46 && c[j] == 46)
}

/// Whether `b` is decimal number text: an optional leading minus, then
/// digits with at most one decimal point.
pub open spec fn spec_is_decimal(b: Seq<u8>) -> bool {
    if b.len() == 0 {
        false
    } else if b[0] == 45 {
        spec_dec_body_ok(b.skip(1))
    } else {
        spec_dec_body_ok(b)
    }
}

/// Whether `b` is decimal number text.
fn is_decimal(b: &[u8]) -> (r: bool)
    ensures
        r == spec_is_decimal(b@),
{
    if b.len() == 0 {
        return false;
    }
    let st: usize = if b[0] == 45 {
        1
    } else {
        0
    };
    let ghost c = b@.skip(st as int);
    proof {
        assert(forall|k: int| 0 <= k < c.len() ==> #[trigger] c[k] == b@[st + k]);
        if st == 0 {
            assert(c =~= b@);
        }
    }
    if b.len() == st {
        return false;
    }
    let mut has_digit = false;
    let mut dot: Option<usize> = None;
    let mut i: usize = st;
    while i < b.len()
        invariant
            st <= i <= b@.len(),
            st == 0 || st == 1,
            st < b@.len(),
            (st == 1) <==> b@[0] == 45,
            st == 0 ==> c == b@,
            c == b@.skip(st as int),
            forall|k: int| 0 <= k < c.len() ==> #[trigger] c[k] == b@[st + k],
            forall|k: int| st <= k < i ==> spec_is_digit(#[trigger] b@[k]) || b@[k] == 46,
            has_digit <==> exists|k: int| st <= k < i && spec_is_digit(#[trigger] b@[k]),
            dot matches Some(dk) ==> st <= dk < i && b@[dk as int] == 46,
            dot matches Some(dk) ==> forall|k: int| st <= k < i && #[trigger] b@[k] == 46 ==> k == dk as int,
            dot is None ==> forall|k: int| st <= k < i ==> #[trigger] b@[k] != 46,
        decreases b@.len() - i,
    {
        let x = b[i];
        if 48 <= x && x <= 57 {
            has_digit = true;
        } else if x == 46 {
            match dot {
                Some(_) => {
                    proof {
                        let dk = dot.unwrap();
                        assert(c[dk - st] == 46 && c[i - st] == 46);
                        assert(!spec_dec_body_ok(c));
                    }
                    return false;
                },
                None => {
                    dot = Some(i);
                },
            }
        } else {
            proof {
                assert(c[i - st] == b@[i as int]);
                assert(!(spec_is_digit(c[i - st]) || c[i - st] == 46));
                assert(!spec_dec_body_ok(c));
            }
            return false;
        }
        i = i + 1;
    }
    proof {
        if has_digit {
            let k = choose|k: int| st <= k < b@.len() && spec_is_digit(#[trigger] b@[k]);
            assert(c[k - st] == b@[k]);
            assert(spec_dec_body_ok(c)) by {
                assert forall|u: int, v: int|
                    #![trigger c[u], c[v]]
                    0 <= u < v < c.len() implies !(c[u] == 46 && c[v] == 46) by {
                    if c[u] == 46 && c[v] == 46 {
                        assert(b@[st + u] == 46 && b@[st + v] == 46);
                    }
                }
            }
        } else {
            if spec_dec_body_ok(c) {
                let k = choose|k: int| 0 <= k < c.len() && spec_is_digit(#[trigger] c[k]);
                assert(b@[st + k] == c[k]);
            }
        }
    }
    has_digit
}

/// One extracted point, ready for the saver: its instant and the decimal
/// text of its price.
pub struct RawData {
    /// UTC milliseconds since the epoch.
    pub at: i64,
    /// The price as decimal text, to be converted at the store edge.
    pub price: Vec<u8>,
}

/// The instant-and-price views of extracted points, in order.
pub open spec fn spec_raw_view(s: Seq<RawData>) -> Seq<(int, Seq<u8>)> {
    Seq::new(s.len(), |i: int| (s[i].at as int, s[i].price@))
}

/// What one point contributes: its instant is the period start plus
/// `position - 1` hours; a missing price defaults to zero; a malformed
/// position or price poisons the period.
pub open spec fn spec_point_out(start_ms: int, p: EntsoePoint) -> Option<(int, Seq<u8>)> {
    match spec_pos_val(p.position@) {
        None => None,
        Some(pos) => {
            let at = start_ms + (pos - 1) * 3_600_000;
            if p.price@.len() == 0 {
                Some((at, seq![48u8]))
            } else if spec_is_decimal(p.price@) {
                Some((at, p.price@))
            } else {
                None
            }
        },
    }
}

/// What a period's points contribute, or nothing when any of them is
/// malformed.
pub open spec fn spec_points_out(start_ms: int, pts: Seq<EntsoePoint>) -> Option<
    Seq<(int, Seq<u8>)>,
>
    decreases pts.len(),
{
    if pts.len() == 0 {
        Some(Seq::empty())
    } else {
        match spec_point_out(start_ms, pts.first()) {
            None => None,
            Some(x) => match spec_points_out(start_ms, pts.drop_first()) {
                None => None,
                Some(rest) => Some(seq![x] + rest),
            },
        }
    }
}

/// One malformed point poisons the whole period.
proof fn lemma_points_out_none(start_ms: int, pts: Seq<EntsoePoint>, k: int)
    requires
        0 <= k < pts.len(),
        spec_point_out(start_ms, pts[k]) is None,
    ensures
        spec_points_out(start_ms, pts) is None,
    decreases k,
{
    if k > 0 {
        assert(pts.drop_first()[k - 1] == pts[k]);
        lemma_points_out_none(start_ms, pts.drop_first(), k - 1);
    } else {
        assert(pts.first() == pts[0]);
    }
}

/// What one period contributes: its points shifted from its start
/// instant; nothing when the interval start is malformed or any point is.
pub open spec fn spec_period_out(p: EntsoePeriod) -> Seq<(int, Seq<u8>)> {
    if spec_iso_ok(p.time_interval.start@) {
        match spec_points_out(spec_iso_ms(p.time_interval.start@), p.points@) {
            Some(s) => s,
            None => Seq::empty(),
        }
    } else {
        Seq::empty()
    }
}

/// What a list of periods contributes, in order.
pub open spec fn spec_periods_out(ps: Seq<EntsoePeriod>) -> Seq<(int, Seq<u8>)>
    decreases ps.len(),
{
    if ps.len() == 0 {
        Seq::empty()
    } else {
        spec_period_out(ps.first()) + spec_periods_out(ps.drop_first())
    }
}

/// What a list of time series contributes, in order.
pub open spec fn spec_ts_out(ts: Seq<EntsoeTimeseries>) -> Seq<(int, Seq<u8>)>
    decreases ts.len(),
{
    if ts.len() == 0 {
        Seq::empty()
    } else {
        spec_periods_out(ts.first().periods@) + spec_ts_out(ts.drop_first())
    }
}

/// Everything a document contributes.
pub open spec fn spec_doc_out(d: EntsoeDoc) -> Seq<(int, Seq<u8>)> {
    spec_ts_out(d.timeseries@)
}

/// The points of one period: each instant is the period start plus
/// `position - 1` hours; a period with a malformed start, position or
/// price is dropped whole.
fn period_points(p: &EntsoePeriod) -> (r: Vec<RawData>)
    ensures
        spec_raw_view(r@) == spec_period_out(*p),
{
    let empty: Vec<RawData> = Vec::new();
    let start_ms = match parse_iso_minute(p.time_interval.start.as_slice()) {
        Some(v) => v,
        None => {
            proof {
                assert(spec_raw_view(empty@) =~= spec_period_out(*p));
            }
            return empty;
        },
    };
    let mut out: Vec<RawData> = Vec::new();
    let mut k: usize = 0;
    proof {
        assert(p.points@.skip(0) =~= p.points@);
        let rest0 = spec_points_out(start_ms as int, p.points@);
        if rest0 is Some {
            assert(spec_raw_view(out@) + rest0.unwrap() =~= rest0.unwrap());
        }
    }
    while k < p.points.len()
        invariant
            0 <= k <= p.points@.len(),
            spec_iso_ok(p.time_interval.start@),
            start_ms == spec_iso_ms(p.time_interval.start@),
            0 <= start_ms < crate::timefmt::MS_10000,
            empty@.len() == 0,
            ({
                let rest = spec_points_out(start_ms as int, p.points@.skip(k as int));
                &&& (rest is Some ==> spec_points_out(start_ms as int, p.points@) == Some(
                    spec_raw_view(out@) + rest.unwrap(),
                ))
                &&& (rest is None ==> spec_points_out(start_ms as int, p.points@) is None)
            }),
        decreases p.points@.len() - k,
    {
        proof {
            assert(p.points@.skip(k as int).first() == p.points@[k as int]);
            assert(p.points@.skip(k as int).drop_first() =~= p.points@.skip(k + 1));
        }
        let pt = &p.points[k];
        let pos = match parse_pos(pt.position.as_slice()) {
            Some(v) => v,
            None => {
                proof {
                    lemma_points_out_none(start_ms as int, p.points@, k as int);
                    assert(spec_raw_view(empty@) =~= spec_period_out(*p));
                }
                return empty;
            },
        };
        let at: i64 = start_ms + ((pos as i64) - 1) * 3_600_000;
        let price: Vec<u8> = if pt.price.len() == 0 {
            let v: Vec<u8> = vec![48u8];
            v
        } else {
            if is_decimal(pt.price.as_slice()) {
                slice_to_vec(pt.price.as_slice())
            } else {
                proof {
                    lemma_points_out_none(start_ms as int, p.points@, k as int);
                    assert(spec_raw_view(empty@) =~= spec_period_out(*p));
                }
                return empty;
            }
        };
        let ghost out0 = spec_raw_view(out@);
        out.push(RawData { at, price });
        proof {
            assert(spec_point_out(start_ms as int, p.points@[k as int]) == Some(
                ((at as int), price@),
            ));
            assert(spec_raw_view(out@) =~= out0 + seq![((at as int), price@)]);
            let rest2 = spec_points_out(start_ms as int, p.points@.skip(k + 1));
            if rest2 is Some {
                assert(spec_points_out(start_ms as int, p.points@.skip(k as int)) == Some(
                    seq![((at as int), price@)] + rest2.unwrap(),
                ));
                assert((out0 + seq![((at as int), price@)]) + rest2.unwrap() =~= out0 + (seq![
                    ((at as int), price@),
                ] + rest2.unwrap()));
            }
        }
        k = k + 1;
    }
    proof {
        assert(p.points@.skip(p.points@.len() as int) =~= Seq::<EntsoePoint>::empty());
        assert(spec_raw_view(out@) + Seq::<(int, Seq<u8>)>::empty() =~= spec_raw_view(out@));
        assert(spec_points_out(start_ms as int, p.points@) == Some(spec_raw_view(out@)));
    }
    out
}

/// The points of one time series, period by period.
fn ts_points(t: &EntsoeTimeseries) -> (r: Vec<RawData>)
    ensures
        spec_raw_view(r@) == spec_periods_out(t.periods@),
{
    let mut out: Vec<RawData> = Vec::new();
    let mut j: usize = 0;
    proof {
        assert(t.periods@.skip(0) =~= t.periods@);
        assert(spec_raw_view(out@) + spec_periods_out(t.periods@) =~= spec_periods_out(
            t.periods@,
        ));
    }
    while j < t.periods.len()
        invariant
            0 <= j <= t.periods@.len(),
            spec_periods_out(t.periods@) == spec_raw_view(out@) + spec_periods_out(
                t.periods@.skip(j as int),
            ),
        decreases t.periods@.len() - j,
    {
        proof {
            assert(t.periods@.skip(j as int).first() == t.periods@[j as int]);
            assert(t.periods@.skip(j as int).drop_first() =~= t.periods@.skip(j + 1));
        }
        let ghost out0 = spec_raw_view(out@);
        let mut add = period_points(&t.periods[j]);
        let ghost addv = spec_raw_view(add@);
        out.append(&mut add);
        proof {
            assert(spec_raw_view(out@) =~= out0 + addv);
            assert((out0 + addv) + spec_periods_out(t.periods@.skip(j + 1)) =~= out0 + (addv
                + spec_periods_out(t.periods@.skip(j + 1))));
        }
        j = j + 1;
    }
    proof {
        assert(t.periods@.skip(t.periods@.len() as int) =~= Seq::<EntsoePeriod>::empty());
        assert(spec_raw_view(out@) + spec_periods_out(t.periods@.skip(t.periods@.len() as int))
            =~= spec_raw_view(out@));
    }
    out
}

/// Map a parsed document to its points: for every well-formed period, one
/// point per entry at `start + (position - 1)` hours carrying the price
/// text; malformed periods dropped, document order kept.
pub fn map_to_data(doc: &EntsoeDoc) -> (r: Vec<RawData>)
    ensures
        spec_raw_view(r@) == spec_doc_out(*doc),
{
    let mut out: Vec<RawData> = Vec::new();
    let mut i: usize = 0;
    proof {
        assert(doc.timeseries@.skip(0) =~= doc.timeseries@);
        assert(spec_raw_view(out@) + spec_ts_out(doc.timeseries@) =~= spec_ts_out(
            doc.timeseries@,
        ));
    }
    while i < doc.timeseries.len()
        invariant
            0 <= i <= doc.timeseries@.len(),
            spec_ts_out(doc.timeseries@) == spec_raw_view(out@) + spec_ts_out(
                doc.timeseries@.skip(i as int),
            ),
        decreases doc.timeseries@.len() - i,
    {
        proof {
            assert(doc.timeseries@.skip(i as int).first() == doc.timeseries@[i as int]);
            assert(doc.timeseries@.skip(i as int).drop_first() =~= doc.timeseries@.skip(i + 1));
        }
        let ghost out0 = spec_raw_view(out@);
        let mut add = ts_points(&doc.timeseries[i]);
        let ghost addv = spec_raw_view(add@);
        out.append(&mut add);
        proof {
            assert(spec_raw_view(out@) =~= out0 + addv);
            assert((out0 + addv) + spec_ts_out(doc.timeseries@.skip(i + 1)) =~= out0 + (addv
                + spec_ts_out(doc.timeseries@.skip(i + 1))));
        }
        i = i + 1;
    }
    proof {
        assert(doc.timeseries@.skip(doc.timeseries@.len() as int) =~= Seq::<
            EntsoeTimeseries,
        >::empty());
        assert(spec_raw_view(out@) + spec_ts_out(
            doc.timeseries@.skip(doc.timeseries@.len() as int),
        ) =~= spec_raw_view(out@));
    }
    out
}


} // verus!
