//! Directory listings: the entries named by a PROPFIND multi-status body.
//!
//! The body is scanned for `href` elements under three spellings of the tag rather
//! than parsed as XML, since servers differ in how they prefix the DAV namespace.

use vstd::prelude::*;
use crate::text::{chars_of, matches_at, occurs_at, occurs_within, string_of, strip_trailing_slashes};
use crate::urlcodec::{percent_decoded, url_decode};

verus! {

/// One child of a listed collection.
pub struct ListingEntry {
    /// The decoded last path segment.
    pub name: String,
    /// Whether the child is itself a collection.
    pub is_collection: bool,
}

impl View for ListingEntry {
    type V = (Seq<char>, bool);

    open spec fn view(&self) -> (Seq<char>, bool) {
        (self.name@, self.is_collection)
    }
}

/// The views of a sequence of entries.
pub open spec fn entries_view(es: Seq<ListingEntry>) -> Seq<(Seq<char>, bool)> {
    es.map_values(|e: ListingEntry| e@)
}

/// How far past the start of an href the collection marker is looked for.
pub const COLLECTION_WINDOW: usize = 500;

/// The opening tag of spelling `k`: `<d:href>`, `<D:href>` or `<href>`.
pub open spec fn href_open(k: int) -> Seq<char> {
    if k == 0 {
        seq!['<', 'd', ':', 'h', 'r', 'e', 'f', '>']
    } else if k == 1 {
        seq!['<', 'D', ':', 'h', 'r', 'e', 'f', '>']
    } else {
        seq!['<', 'h', 'r', 'e', 'f', '>']
    }
}

/// The closing tag of spelling `k`.
pub open spec fn href_close(k: int) -> Seq<char> {
    if k == 0 {
        seq!['<', '/', 'd', ':', 'h', 'r', 'e', 'f', '>']
    } else if k == 1 {
        seq!['<', '/', 'D', ':', 'h', 'r', 'e', 'f', '>']
    } else {
        seq!['<', '/', 'h', 'r', 'e', 'f', '>']
    }
}

/// The collection marker of spelling `k`: `<d:collection`, `<D:collection` or `<collection`.
pub open spec fn collection_marker(k: int) -> Seq<char> {
    if k == 0 {
        seq!['<', 'd', ':', 'c', 'o', 'l', 'l', 'e', 'c', 't', 'i', 'o', 'n']
    } else if k == 1 {
        seq!['<', 'D', ':', 'c', 'o', 'l', 'l', 'e', 'c', 't', 'i', 'o', 'n']
    } else {
        seq!['<', 'c', 'o', 'l', 'l', 'e', 'c', 't', 'i', 'o', 'n']
    }
}

/// The spans `(start, end)` of the contents of the elements opened by `open` and closed by
/// `close`, scanning `b` from `pos`; `start` is the start of an element whose closing tag
/// is still being looked for. An element that is never closed ends the scan.
pub open spec fn href_spans(
    b: Seq<char>,
    open: Seq<char>,
    close: Seq<char>,
    pos: int,
    start: Option<int>,
) -> Seq<(int, int)>
    decreases b.len() - pos,
{
    if pos < 0 || pos >= b.len() {
        Seq::empty()
    } else {
        match start {
            None => if open.len() > 0 && occurs_at(b, open, pos) {
                href_spans(b, open, close, pos + open.len(), Some(pos + open.len()))
            } else {
                href_spans(b, open, close, pos + 1, None)
            },
            Some(a) => if occurs_at(b, close, pos) {
                seq![(a, pos)] + href_spans(b, open, close, pos + 1, None)
            } else {
                href_spans(b, open, close, pos + 1, Some(a))
            },
        }
    }
}

/// The part of `s` after its last slash (all of `s` when it has none).
pub open spec fn last_segment(s: Seq<char>) -> Seq<char>
    decreases s.len(),
{
    if s.len() == 0 {
        s
    } else if s.last() == '/' {
        Seq::empty()
    } else {
        last_segment(s.drop_last()).push(s.last())
    }
}

/// The href text decoded, or as it stands where decoding fails.
pub open spec fn decoded_href(c: Seq<char>) -> Seq<char> {
    match percent_decoded(c) {
        Some(d) => d,
        None => c,
    }
}

/// A collection marker lies wholly within the window that starts at `a`.
pub open spec fn marks_collection(b: Seq<char>, a: int) -> bool {
    let end = if a + COLLECTION_WINDOW < b.len() {
        a + COLLECTION_WINDOW
    } else {
        b.len() as int
    };
    exists|k: int, i: int|
        0 <= k < 3 && a <= i && i + collection_marker(k).len() <= end && #[trigger] occurs_at(
            b,
            collection_marker(k),
            i,
        )
}

/// The entry that the href with contents `b[a..e]` names, unless its name is empty or
/// starts with a dot.
pub open spec fn span_entry(b: Seq<char>, a: int, e: int) -> Option<(Seq<char>, bool)> {
    let d = decoded_href(b.subrange(a, e));
    let n = last_segment(strip_trailing_slashes(d));
    if n.len() == 0 || n[0] == '.' {
        None
    } else {
        Some((n, marks_collection(b, a) || (d.len() > 0 && d.last() == '/')))
    }
}

/// `acc` with `x` added at its end, unless `x` is absent or already there.
pub open spec fn add_entry(
    acc: Seq<(Seq<char>, bool)>,
    x: Option<(Seq<char>, bool)>,
) -> Seq<(Seq<char>, bool)> {
    match x {
        Some(v) => if acc.contains(v) {
            acc
        } else {
            acc.push(v)
        },
        None => acc,
    }
}

/// The entries of the spans added in order to `acc`.
pub open spec fn collect_spans(
    b: Seq<char>,
    spans: Seq<(int, int)>,
    acc: Seq<(Seq<char>, bool)>,
) -> Seq<(Seq<char>, bool)>
    decreases spans.len(),
{
    if spans.len() == 0 {
        acc
    } else {
        collect_spans(b, spans.drop_first(), add_entry(acc, span_entry(b, spans[0].0, spans[0].1)))
    }
}

/// All spans but the first, which is the listed collection itself.
pub open spec fn children(spans: Seq<(int, int)>) -> Seq<(int, int)> {
    if spans.len() == 0 {
        spans
    } else {
        spans.drop_first()
    }
}

/// The entries of `b` found through the first `k` tag spellings.
pub open spec fn listing_upto(b: Seq<char>, k: int) -> Seq<(Seq<char>, bool)>
    decreases k,
{
    if k <= 0 {
        Seq::empty()
    } else {
        collect_spans(
            b,
            children(href_spans(b, href_open(k - 1), href_close(k - 1), 0, None)),
            listing_upto(b, k - 1),
        )
    }
}

/// The entries that a listing body names: for each tag spelling in turn, every href but
/// the first, without dot-names or repeats.
pub open spec fn listing_entries(b: Seq<char>) -> Seq<(Seq<char>, bool)> {
    listing_upto(b, 3)
}

fn href_open_chars(k: usize) -> (r: Vec<char>)
    requires
        k < 3,
    ensures
        r@ == href_open(k as int),
{
    if k == 0 {
        vec!['<', 'd', ':', 'h', 'r', 'e', 'f', '>']
    } else if k == 1 {
        vec!['<', 'D', ':', 'h', 'r', 'e', 'f', '>']
    } else {
        vec!['<', 'h', 'r', 'e', 'f', '>']
    }
}

fn href_close_chars(k: usize) -> (r: Vec<char>)
    requires
        k < 3,
    ensures
        r@ == href_close(k as int),
{
    if k == 0 {
        vec!['<', '/', 'd', ':', 'h', 'r', 'e', 'f', '>']
    } else if k == 1 {
        vec!['<', '/', 'D', ':', 'h', 'r', 'e', 'f', '>']
    } else {
        vec!['<', '/', 'h', 'r', 'e', 'f', '>']
    }
}

fn collection_marker_chars(k: usize) -> (r: Vec<char>)
    requires
        k < 3,
    ensures
        r@ == collection_marker(k as int),
{
    if k == 0 {
        vec!['<', 'd', ':', 'c', 'o', 'l', 'l', 'e', 'c', 't', 'i', 'o', 'n']
    } else if k == 1 {
        vec!['<', 'D', ':', 'c', 'o', 'l', 'l', 'e', 'c', 't', 'i', 'o', 'n']
    } else {
        vec!['<', 'c', 'o', 'l', 'l', 'e', 'c', 't', 'i', 'o', 'n']
    }
}

/// The spans as integer pairs.
pub open spec fn spans_view(v: Seq<(usize, usize)>) -> Seq<(int, int)> {
    v.map_values(|p: (usize, usize)| (p.0 as int, p.1 as int))
}

proof fn lemma_spans_in_bounds(
    b: Seq<char>,
    open: Seq<char>,
    close: Seq<char>,
    pos: int,
    start: Option<int>,
)
    requires
        0 <= pos,
        start matches Some(a) ==> 0 <= a <= pos,
    ensures
        forall|t: int|
            0 <= t < href_spans(b, open, close, pos, start).len() ==> 0 <= (#[trigger] href_spans(
                b,
                open,
                close,
                pos,
                start,
            )[t]).0 <= href_spans(b, open, close, pos, start)[t].1 < b.len(),
    decreases b.len() - pos,
{
    let here = href_spans(b, open, close, pos, start);
    if pos < 0 || pos >= b.len() {
    } else {
        match start {
            None => if open.len() > 0 && occurs_at(b, open, pos) {
                lemma_spans_in_bounds(b, open, close, pos + open.len(), Some(pos + open.len()));
                assert(here == href_spans(b, open, close, pos + open.len(), Some(pos + open.len())));
            } else {
                lemma_spans_in_bounds(b, open, close, pos + 1, None);
                assert(here == href_spans(b, open, close, pos + 1, None));
            },
            Some(a) => if occurs_at(b, close, pos) {
                lemma_spans_in_bounds(b, open, close, pos + 1, None);
                let rest = href_spans(b, open, close, pos + 1, None);
                assert(here == seq![(a, pos)] + rest);
                assert forall|t: int| 0 <= t < here.len() implies 0 <= (#[trigger] here[t]).0
                    <= here[t].1 < b.len() by {
                    if t > 0 {
                        assert(here[t] == rest[t - 1]);
                    }
                }
            } else {
                lemma_spans_in_bounds(b, open, close, pos + 1, Some(a));
                assert(here == href_spans(b, open, close, pos + 1, Some(a)));
            },
        }
    }
}

fn find_spans(b: &Vec<char>, open: &Vec<char>, close: &Vec<char>) -> (r: Vec<(usize, usize)>)
    ensures
        spans_view(r@) == href_spans(b@, open@, close@, 0, None),
{
    let mut out: Vec<(usize, usize)> = Vec::new();
    let mut pos: usize = 0;
    let mut start: Option<usize> = None;
    while pos < b.len()
        invariant
            pos <= b@.len(),
            start matches Some(a) ==> a <= pos,
            spans_view(out@) + href_spans(
                b@,
                open@,
                close@,
                pos as int,
                match start {
                    Some(a) => Some(a as int),
                    None => None,
                },
            ) == href_spans(b@, open@, close@, 0, None),
        decreases b@.len() - pos,
    {
        let ghost before = out@;
        match start {
            None => {
                if open.len() > 0 && matches_at(b.as_slice(), open.as_slice(), pos) {
                    pos = pos + open.len();
                    start = Some(pos);
                } else {
                    pos = pos + 1;
                }
            },
            Some(a) => {
                if matches_at(b.as_slice(), close.as_slice(), pos) {
                    out.push((a, pos));
                    proof {
                        assert(spans_view(out@) =~= spans_view(before) + seq![(a as int, pos as int)]);
                    }
                    start = None;
                } else {
                    start = Some(a);
                }
                pos = pos + 1;
            },
        }
    }
    proof {
        assert(spans_view(out@) + Seq::<(int, int)>::empty() =~= spans_view(out@));
    }
    out
}

fn copy_range(b: &Vec<char>, a: usize, e: usize) -> (r: Vec<char>)
    requires
        a <= e <= b@.len(),
    ensures
        r@ == b@.subrange(a as int, e as int),
{
    let mut out: Vec<char> = Vec::new();
    let mut i: usize = a;
    while i < e
        invariant
            a <= i <= e <= b@.len(),
            out@ == b@.subrange(a as int, i as int),
        decreases e - i,
    {
        out.push(b[i]);
        i = i + 1;
        proof {
            assert(out@ =~= b@.subrange(a as int, i as int));
        }
    }
    out
}

fn marks_collection_at(b: &Vec<char>, a: usize) -> (r: bool)
    requires
        a <= b@.len(),
    ensures
        r == marks_collection(b@, a as int),
{
    let end: usize = if b.len() - a > COLLECTION_WINDOW {
        a + COLLECTION_WINDOW
    } else {
        b.len()
    };
    let mut k: usize = 0;
    while k < 3
        invariant
            k <= 3,
            a <= end <= b@.len(),
            end == (if a + COLLECTION_WINDOW < b@.len() {
                a + COLLECTION_WINDOW
            } else {
                b@.len() as int
            }),
            forall|j: int, i: int|
                0 <= j < k && a <= i && i + collection_marker(j).len() <= end ==> !occurs_at(
                    b@,
                    collection_marker(j),
                    i,
                ),
        decreases 3 - k,
    {
        let m = collection_marker_chars(k);
        if occurs_within(b.as_slice(), m.as_slice(), a, end) {
            return true;
        }
        k = k + 1;
    }
    false
}

fn span_entry_of(b: &Vec<char>, a: usize, e: usize) -> (r: Option<ListingEntry>)
    requires
        a <= e <= b@.len(),
    ensures
        match r {
            Some(x) => span_entry(b@, a as int, e as int) == Some(x@),
            None => span_entry(b@, a as int, e as int) is None,
        },
{
    let raw = string_of(copy_range(b, a, e).as_slice());
    let decoded = match url_decode(raw.as_str()) {
        Some(t) => t,
        None => raw,
    };
    let d = chars_of(decoded.as_str());
    let ghost dv = decoded_href(b@.subrange(a as int, e as int));
    assert(d@ == dv);
    let mut end: usize = d.len();
    proof {
        assert(d@.take(end as int) =~= d@);
    }
    while end > 0 && d[end - 1] == '/'
        invariant
            end <= d@.len(),
            strip_trailing_slashes(d@) == strip_trailing_slashes(d@.take(end as int)),
        decreases end,
    {
        proof {
            assert(d@.take(end as int).drop_last() =~= d@.take(end - 1));
        }
        end = end - 1;
    }
    let mut start: usize = end;
    proof {
        assert(d@.subrange(end as int, end as int) =~= Seq::<char>::empty());
        assert(last_segment(d@.take(end as int)) =~= last_segment(d@.take(start as int))
            + d@.subrange(start as int, end as int));
    }
    while start > 0 && d[start - 1] != '/'
        invariant
            start <= end <= d@.len(),
            last_segment(d@.take(end as int)) == last_segment(d@.take(start as int)) + d@.subrange(
                start as int,
                end as int,
            ),
        decreases start,
    {
        proof {
            assert(d@.take(start as int).drop_last() =~= d@.take(start - 1));
            assert(d@.subrange(start - 1, end as int) =~= seq![d@[start - 1]] + d@.subrange(
                start as int,
                end as int,
            ));
        }
        start = start - 1;
    }
    proof {
        assert(last_segment(d@.take(start as int)) =~= Seq::<char>::empty());
        assert(strip_trailing_slashes(d@) == d@.take(end as int));
    }
    if start == end || d[start] == '.' {
        return None;
    }
    let ends_with_slash = d.len() > 0 && d[d.len() - 1] == '/';
    let is_collection = marks_collection_at(b, a) || ends_with_slash;
    let name = string_of(copy_range(&d, start, end).as_slice());
    Some(ListingEntry { name, is_collection })
}

fn push_unique(out: &mut Vec<ListingEntry>, x: ListingEntry)
    ensures
        entries_view(final(out)@) == add_entry(entries_view(old(out)@), Some(x@)),
{
    let mut i: usize = 0;
    while i < out.len()
        invariant
            i <= out@.len(),
            forall|j: int| 0 <= j < i ==> out@[j]@ != x@,
        decreases out@.len() - i,
    {
        if out[i].is_collection == x.is_collection && out[i].name == x.name {
            proof {
                assert(entries_view(out@)[i as int] == x@);
            }
            return;
        }
        i = i + 1;
    }
    let ghost before = out@;
    proof {
        assert(!entries_view(before).contains(x@));
    }
    out.push(x);
    proof {
        assert(entries_view(out@) =~= entries_view(before).push(x@));
    }
}

/// The entries that a PROPFIND body names, in the order found: for each of the tag
/// spellings `d:href`, `D:href` and `href` in turn, every href but the first (the listed
/// collection itself), decoded, reduced to its last segment, without names that are empty
/// or start with a dot, and without repeats. An entry is a collection when its href ends
/// with a slash or a collection marker follows within 500 characters.
pub fn parse_listing(body: &str) -> (r: Vec<ListingEntry>)
    ensures
        entries_view(r@) == listing_entries(body@),
{
    let b = chars_of(body);
    let mut out: Vec<ListingEntry> = Vec::new();
    let mut k: usize = 0;
    while k < 3
        invariant
            k <= 3,
            b@ == body@,
            entries_view(out@) == listing_upto(b@, k as int),
        decreases 3 - k,
    {
        let open = href_open_chars(k);
        let close = href_close_chars(k);
        let spans = find_spans(&b, &open, &close);
        let ghost all = spans_view(spans@);
        let ghost base = entries_view(out@);
        let mut j: usize = 1;
        proof {
            lemma_spans_in_bounds(b@, href_open(k as int), href_close(k as int), 0, None);
            if spans@.len() > 0 {
                assert(all.skip(1) =~= children(all));
            } else {
                assert(children(all) =~= Seq::<(int, int)>::empty());
            }
        }
        while j < spans.len()
            invariant
                1 <= j,
                spans@.len() > 0 ==> j <= spans@.len(),
                all == spans_view(spans@),
                all == href_spans(b@, href_open(k as int), href_close(k as int), 0, None),
                forall|t: int| 0 <= t < all.len() ==> 0 <= (#[trigger] all[t]).0 <= all[t].1 <= b@.len(),
                collect_spans(b@, children(all), base) == collect_spans(
                    b@,
                    if j <= all.len() { all.skip(j as int) } else { Seq::empty() },
                    entries_view(out@),
                ),
            decreases spans@.len() - j,
        {
            let (a, e) = spans[j];
            proof {
                assert(all[j as int] == (a as int, e as int));
                assert(all.skip(j as int).drop_first() =~= all.skip(j + 1));
            }
            match span_entry_of(&b, a, e) {
                Some(x) => push_unique(&mut out, x),
                None => {},
            }
            j = j + 1;
        }
        proof {
            if spans@.len() > 0 {
                assert(all.skip(j as int) =~= Seq::<(int, int)>::empty());
            }
        }
        k = k + 1;
    }
    out
}

} // verus!
