//! In-memory model of one named series of the time-series store: points
//! ordered by instant, duplicate appends resolved last-write-wins, range
//! scans ascending and inclusive at both ends. The round-trip law —
//! whatever is appended comes back from a range scan, in ascending order —
//! is proved here against this model.

use vstd::prelude::*;

use crate::data::Data;

verus! {

/// A sequence of points strictly increasing by instant.
pub open spec fn spec_sorted(s: Seq<Data>) -> bool {
    forall|i: int, j: int| 0 <= i < j < s.len() ==> #[trigger] s[i].at < #[trigger] s[j].at
}

/// Insert a point into a sorted sequence, replacing any point at the same
/// instant (last write wins).
pub open spec fn spec_insert(s: Seq<Data>, d: Data) -> Seq<Data>
    decreases s.len(),
{
    if s.len() == 0 {
        seq![d]
    } else if s.last().at < d.at {
        s + seq![d]
    } else if s.last().at == d.at {
        s.drop_last() + seq![d]
    } else {
        spec_insert(s.drop_last(), d) + seq![s.last()]
    }
}

/// The points of `s` whose instants lie in `[from, to]`, in order.
pub open spec fn spec_range(s: Seq<Data>, from: int, to: int) -> Seq<Data>
    decreases s.len(),
{
    if s.len() == 0 {
        Seq::empty()
    } else {
        let rest = spec_range(s.drop_last(), from, to);
        if from <= s.last().at <= to {
            rest.push(s.last())
        } else {
            rest
        }
    }
}

/// Inserting keeps the sequence sorted, places the new point, and keeps
/// exactly the old points at other instants: the round-trip law's "what
/// was appended is what is stored".
pub proof fn lemma_insert_properties(s: Seq<Data>, d: Data)
    requires
        spec_sorted(s),
    ensures
        spec_sorted(spec_insert(s, d)),
        spec_insert(s, d).contains(d),
        forall|p: Data|
            spec_insert(s, d).contains(p) <==> (p == d || (s.contains(p) && p.at != d.at)),
    decreases s.len(),
{
    let r = spec_insert(s, d);
    if s.len() == 0 {
        assert(r[0] == d);
        assert forall|p: Data| r.contains(p) implies (p == d || (s.contains(p) && p.at != d.at)) by {
            let i = choose|i: int| 0 <= i < r.len() && r[i] == p;
        }
    } else if s.last().at < d.at {
        assert(r[s.len() as int] == d);
        assert forall|p: Data| r.contains(p) implies (p == d || (s.contains(p) && p.at != d.at)) by {
            let i = choose|i: int| 0 <= i < r.len() && r[i] == p;
            if i < s.len() {
                assert(s[i] == p);
                assert(s.contains(p));
            }
        }
        assert forall|p: Data| (p == d || (s.contains(p) && p.at != d.at)) implies r.contains(
            p,
        ) by {
            if p != d {
                let i = choose|i: int| 0 <= i < s.len() && s[i] == p;
                assert(r[i] == p);
            }
        }
    } else if s.last().at == d.at {
        let b = s.drop_last();
        assert(r[b.len() as int] == d);
        assert forall|p: Data| r.contains(p) implies (p == d || (s.contains(p) && p.at != d.at)) by {
            let i = choose|i: int| 0 <= i < r.len() && r[i] == p;
            if i < b.len() {
                assert(s[i] == p);
                assert(s.contains(p));
            }
        }
        assert forall|p: Data| (p == d || (s.contains(p) && p.at != d.at)) implies r.contains(
            p,
        ) by {
            if p != d {
                let i = choose|i: int| 0 <= i < s.len() && s[i] == p;
                assert(i < b.len());
                assert(r[i] == p);
            }
        }
    } else {
        let b = s.drop_last();
        assert(forall|k: int| 0 <= k < b.len() ==> #[trigger] b[k] == s[k]);
        lemma_insert_properties(b, d);
        let rb = spec_insert(b, d);
        assert(forall|k: int| 0 <= k < rb.len() ==> #[trigger] r[k] == rb[k]);
        assert(r[rb.len() as int] == s.last());
        assert forall|i: int, j: int| 0 <= i < j < r.len() implies #[trigger] r[i].at
            < #[trigger] r[j].at by {
            if j == rb.len() {
                assert(rb.contains(rb[i]));
                if rb[i] != d {
                    assert(b.contains(rb[i]));
                    let k = choose|k: int| 0 <= k < b.len() && b[k] == rb[i];
                    assert(s[k].at < s.last().at);
                }
            }
        }
        assert(rb.contains(d));
        let kd = choose|k: int| 0 <= k < rb.len() && rb[k] == d;
        assert(r[kd] == d);
        assert(r.contains(d));
        assert forall|p: Data| r.contains(p) implies (p == d || (s.contains(p) && p.at != d.at)) by {
            let i = choose|i: int| 0 <= i < r.len() && r[i] == p;
            if i < rb.len() {
                assert(rb[i] == p);
                assert(rb.contains(p));
                if p != d {
                    assert(b.contains(p));
                    let k = choose|k: int| 0 <= k < b.len() && b[k] == p;
                    assert(s[k] == p);
                    assert(s.contains(p));
                }
            } else {
                assert(p == s.last());
                assert(s.contains(p));
            }
        }
        assert forall|p: Data| (p == d || (s.contains(p) && p.at != d.at)) implies r.contains(
            p,
        ) by {
            if p == d {
                assert(r[kd] == d);
            } else {
                let i = choose|i: int| 0 <= i < s.len() && s[i] == p;
                if i < b.len() {
                    assert(b[i] == p);
                    assert(b.contains(p));
                    let k = choose|k: int| 0 <= k < rb.len() && rb[k] == p;
                    assert(r[k] == p);
                } else {
                    assert(r[rb.len() as int] == p);
                }
            }
        }
    }
}

/// Where the insertion lands: replacing the point at `i - 1` when the
/// instants collide, else making room at `i`, provided everything from `i`
/// on lies after `d`.
pub proof fn lemma_insert_at(s: Seq<Data>, d: Data, i: int)
    requires
        spec_sorted(s),
        0 <= i <= s.len(),
        forall|k: int| i <= k < s.len() ==> #[trigger] s[k].at > d.at,
        i > 0 ==> s[i - 1].at <= d.at,
    ensures
        i > 0 && s[i - 1].at == d.at ==> spec_insert(s, d) =~= s.update(i - 1, d),
        !(i > 0 && s[i - 1].at == d.at) ==> spec_insert(s, d) =~= s.take(i) + seq![d] + s.skip(i),
    decreases s.len(),
{
    if i == s.len() {
        if i > 0 && s[i - 1].at == d.at {
            assert(spec_insert(s, d) == s.drop_last() + seq![d]);
            assert(spec_insert(s, d) =~= s.update(i - 1, d));
        } else {
            assert(spec_insert(s, d) =~= s.take(i) + seq![d] + s.skip(i));
        }
    } else {
        let b = s.drop_last();
        assert(s[s.len() - 1].at > d.at);
        lemma_insert_at(b, d, i);
        if i > 0 && s[i - 1].at == d.at {
            assert(spec_insert(s, d) == spec_insert(b, d) + seq![s.last()]);
            assert(spec_insert(s, d) =~= s.update(i - 1, d));
        } else {
            assert(spec_insert(s, d) == spec_insert(b, d) + seq![s.last()]);
            assert(spec_insert(s, d) =~= s.take(i) + seq![d] + s.skip(i));
        }
    }
}

/// A range scan of a sorted sequence comes out sorted, bounded by the last
/// stored instant.
pub proof fn lemma_range_sorted(s: Seq<Data>, from: int, to: int)
    requires
        spec_sorted(s),
    ensures
        spec_sorted(spec_range(s, from, to)),
        forall|i: int|
            0 <= i < spec_range(s, from, to).len() ==> s.len() > 0 && #[trigger] spec_range(
                s,
                from,
                to,
            )[i].at <= s.last().at,
    decreases s.len(),
{
    if s.len() > 0 {
        let b = s.drop_last();
        assert(forall|k: int| 0 <= k < b.len() ==> #[trigger] b[k] == s[k]);
        lemma_range_sorted(b, from, to);
        let fb = spec_range(b, from, to);
        let f = spec_range(s, from, to);
        if from <= s.last().at <= to {
            assert(f == fb.push(s.last()));
            assert forall|i: int, j: int| 0 <= i < j < f.len() implies #[trigger] f[i].at
                < #[trigger] f[j].at by {
                if j == fb.len() {
                    assert(f[i] == fb[i]);
                    assert(fb[i].at <= b.last().at);
                    assert(b.last().at < s.last().at);
                }
            }
        } else {
            assert(f == fb);
            assert forall|i: int| 0 <= i < f.len() implies s.len() > 0 && #[trigger] f[i].at
                <= s.last().at by {
                assert(f[i].at <= b.last().at);
                assert(b.last().at < s.last().at);
            }
        }
    }
}

/// One named series: an ordered, append-mostly sequence of points keyed by
/// instant.
pub struct Series {
    points: Vec<Data>,
}

impl View for Series {
    type V = Seq<Data>;

    closed spec fn view(&self) -> Seq<Data> {
        self.points@
    }
}

impl Series {
    /// The stored points are strictly increasing by instant.
    #[verifier::type_invariant]
    spec fn inv(self) -> bool {
        spec_sorted(self.points@)
    }

    /// An empty series.
    pub fn new() -> (r: Series)
        ensures
            r@ == Seq::<Data>::empty(),
    {
        Series { points: Vec::new() }
    }

    /// Number of stored points.
    pub fn len(&self) -> (r: usize)
        ensures
            r == self@.len(),
    {
        self.points.len()
    }

    /// The stored points, ascending by instant.
    pub fn points(&self) -> (r: &Vec<Data>)
        ensures
            r@ == self@,
            spec_sorted(self@),
    {
        proof {
            use_type_invariant(&*self);
        }
        &self.points
    }

    /// The greatest-instant point, or `None` when empty.
    pub fn last(&self) -> (r: Option<Data>)
        ensures
            self@.len() == 0 ==> r is None,
            self@.len() > 0 ==> r == Some(self@.last()) && (forall|i: int|
                0 <= i < self@.len() ==> #[trigger] self@[i].at <= self@.last().at),
    {
        proof {
            use_type_invariant(&*self);
        }
        if self.points.len() == 0 {
            None
        } else {
            Some(self.points[self.points.len() - 1])
        }
    }

    /// Append a point; a second write at the same instant replaces the
    /// first (last write wins), everything else stays.
    pub fn append(&mut self, d: Data)
        ensures
            final(self)@ == spec_insert(old(self)@, d),
            final(self)@.contains(d),
            forall|p: Data|
                final(self)@.contains(p) <==> (p == d || (old(self)@.contains(p) && p.at != d.at)),
    {
        proof {
            use_type_invariant(&*self);
        }
        let ghost s0 = self.points@;
        let mut pts: Vec<Data> = Vec::new();
        core::mem::swap(&mut pts, &mut self.points);
        let mut i: usize = pts.len();
        while i > 0 && pts[i - 1].at > d.at
            invariant
                0 <= i <= pts@.len(),
                pts@ == s0,
                spec_sorted(s0),
                forall|k: int| i <= k < s0.len() ==> #[trigger] s0[k].at > d.at,
            decreases i,
        {
            i = i - 1;
        }
        proof {
            lemma_insert_at(s0, d, i as int);
            lemma_insert_properties(s0, d);
        }
        if i > 0 && pts[i - 1].at == d.at {
            pts[i - 1] = d;
            proof {
                assert(pts@ =~= spec_insert(s0, d));
            }
        } else {
            pts.insert(i, d);
            proof {
                assert(pts@ =~= spec_insert(s0, d));
            }
        }
        self.points = pts;
    }

    /// The points with instants in `[from_ms, to_ms]`, ascending.
    pub fn range(&self, from_ms: i64, to_ms: i64) -> (r: Vec<Data>)
        ensures
            r@ == spec_range(self@, from_ms as int, to_ms as int),
            spec_sorted(r@),
    {
        proof {
            use_type_invariant(&*self);
        }
        let mut r: Vec<Data> = Vec::new();
        let mut i: usize = 0;
        while i < self.points.len()
            invariant
                0 <= i <= self.points@.len(),
                spec_sorted(self.points@),
                r@ == spec_range(self.points@.take(i as int), from_ms as int, to_ms as int),
            decreases self.points@.len() - i,
        {
            let d = self.points[i];
            proof {
                assert(self.points@.take(i + 1).drop_last() =~= self.points@.take(i as int));
                assert(self.points@.take(i + 1).last() == self.points@[i as int]);
            }
            if from_ms <= d.at && d.at <= to_ms {
                r.push(d);
            }
            i = i + 1;
        }
        proof {
            assert(self.points@.take(self.points@.len() as int) =~= self.points@);
            lemma_range_sorted(self.points@, from_ms as int, to_ms as int);
        }
        r
    }
}

/// The contents of a series built by appending `pts`, in order, to an
/// empty series.
pub open spec fn spec_fold_inserts(pts: Seq<Data>) -> Seq<Data>
    decreases pts.len(),
{
    if pts.len() == 0 {
        Seq::empty()
    } else {
        spec_insert(spec_fold_inserts(pts.drop_last()), pts.last())
    }
}

/// Membership in a sequence splits into its last element and the rest.
proof fn lemma_contains_split(s: Seq<Data>, p: Data)
    requires
        s.len() > 0,
    ensures
        s.contains(p) <==> (s.drop_last().contains(p) || p == s.last()),
{
    if s.contains(p) {
        let i = choose|i: int| 0 <= i < s.len() && s[i] == p;
        if i < s.len() - 1 {
            assert(s.drop_last()[i] == p);
        }
    }
    if s.drop_last().contains(p) {
        let i = choose|i: int| 0 <= i < s.drop_last().len() && s.drop_last()[i] == p;
        assert(s[i] == p);
    }
    if p == s.last() {
        assert(s[s.len() - 1] == p);
    }
}

/// Appending points with pairwise distinct instants stores exactly those
/// points, sorted.
pub proof fn lemma_fold_inserts(pts: Seq<Data>)
    requires
        forall|i: int, j: int| 0 <= i < j < pts.len() ==> #[trigger] pts[i].at != #[trigger] pts[j].at,
    ensures
        spec_sorted(spec_fold_inserts(pts)),
        forall|p: Data| #[trigger] spec_fold_inserts(pts).contains(p) <==> pts.contains(p),
    decreases pts.len(),
{
    if pts.len() > 0 {
        let b = pts.drop_last();
        assert(forall|k: int| 0 <= k < b.len() ==> #[trigger] b[k] == pts[k]);
        lemma_fold_inserts(b);
        lemma_insert_properties(spec_fold_inserts(b), pts.last());
        assert forall|p: Data| #[trigger] spec_fold_inserts(pts).contains(p) <==> pts.contains(
            p,
        ) by {
            lemma_contains_split(pts, p);
            assert(spec_fold_inserts(pts) == spec_insert(spec_fold_inserts(b), pts.last()));
            assert(spec_insert(spec_fold_inserts(b), pts.last()).contains(p) <==> (p == pts.last()
                || (spec_fold_inserts(b).contains(p) && p.at != pts.last().at)));
            if b.contains(p) {
                let i = choose|i: int| 0 <= i < b.len() && b[i] == p;
                assert(pts[i] == p);
                assert(pts[i].at != pts[pts.len() - 1].at);
            }
        }
    }
}

/// A range scan returns exactly the stored points inside the window.
pub proof fn lemma_range_contains(s: Seq<Data>, from: int, to: int)
    ensures
        forall|p: Data|
            #[trigger] spec_range(s, from, to).contains(p) <==> (s.contains(p) && from <= p.at
                <= to),
    decreases s.len(),
{
    if s.len() > 0 {
        let b = s.drop_last();
        lemma_range_contains(b, from, to);
        assert forall|p: Data|
            #[trigger] spec_range(s, from, to).contains(p) <==> (s.contains(p) && from <= p.at
                <= to) by {
            lemma_contains_split(s, p);
            if from <= s.last().at <= to {
                assert(spec_range(s, from, to) == spec_range(b, from, to).push(s.last()));
                lemma_contains_split(spec_range(b, from, to).push(s.last()), p);
                assert(spec_range(b, from, to).push(s.last()).drop_last() =~= spec_range(
                    b,
                    from,
                    to,
                ));
            } else {
                assert(spec_range(s, from, to) == spec_range(b, from, to));
            }
        }
    }
}

/// The round-trip law: append any points with pairwise distinct instants
/// to an empty series, then scan a range that covers them all; the scan
/// returns exactly those points, ascending by instant.
pub proof fn lemma_round_trip(pts: Seq<Data>, from: int, to: int)
    requires
        forall|i: int, j: int| 0 <= i < j < pts.len() ==> #[trigger] pts[i].at != #[trigger] pts[j].at,
        forall|i: int| 0 <= i < pts.len() ==> from <= #[trigger] pts[i].at <= to,
    ensures
        spec_sorted(spec_range(spec_fold_inserts(pts), from, to)),
        forall|p: Data|
            #[trigger] spec_range(spec_fold_inserts(pts), from, to).contains(p) <==> pts.contains(
                p,
            ),
{
    lemma_fold_inserts(pts);
    lemma_range_contains(spec_fold_inserts(pts), from, to);
    lemma_range_sorted(spec_fold_inserts(pts), from, to);
    assert forall|p: Data|
        #[trigger] spec_range(spec_fold_inserts(pts), from, to).contains(p) <==> pts.contains(
            p,
        ) by {
        if pts.contains(p) {
            let i = choose|i: int| 0 <= i < pts.len() && pts[i] == p;
            assert(from <= pts[i].at <= to);
        }
    }
}

} // verus!
