use vstd::prelude::*;

verus! {

/// Number of cells of the byte-pair grid: one for each ordered pair of byte values.
pub const CELLS: usize = 65536;

/// The cell that counts byte `x` immediately followed by byte `y`.
pub open spec fn cell_of(x: u8, y: u8) -> int {
    y as int * 256 + x as int
}

/// How many of the first `n` adjacent pairs `(b[i], b[i + 1])` fall into cell `c`.
pub open spec fn pairs_upto(b: Seq<u8>, n: int, c: int) -> nat
    decreases n,
{
    if n <= 0 {
        0
    } else {
        pairs_upto(b, n - 1, c) + if cell_of(b[n - 1], b[n]) == c {
            1nat
        } else {
            0nat
        }
    }
}

/// How many adjacent pairs of `b` fall into cell `c`: a buffer of length `L` has `L - 1` pairs.
pub open spec fn pair_count(b: Seq<u8>, c: int) -> nat {
    pairs_upto(b, b.len() - 1, c)
}

/// A count clamped to the largest `u32`.
pub open spec fn saturate(v: int) -> u32 {
    if v > u32::MAX {
        u32::MAX
    } else if v < 0 {
        0
    } else {
        v as u32
    }
}

/// The grid of a fresh or cleared table.
pub open spec fn empty_counts() -> Seq<u32> {
    Seq::new(CELLS as nat, |c: int| 0u32)
}

/// The counts after adding every adjacent pair of `b` to `start`, saturating.
pub open spec fn filled(start: Seq<u32>, b: Seq<u8>) -> Seq<u32> {
    Seq::new(start.len(), |c: int| saturate(start[c] + pair_count(b, c)))
}

/// The largest count of a grid, zero for an empty one.
pub open spec fn peak_of(s: Seq<u32>) -> u32
    decreases s.len(),
{
    if s.len() == 0 {
        0
    } else {
        let p = peak_of(s.drop_last());
        if s.last() > p {
            s.last()
        } else {
            p
        }
    }
}

/// One cell of a feature vector: the value `ln(count) / ln(max)`, where `max` is the
/// largest count of the grid. The value is zero where nothing was counted or where
/// `ln(max)` is zero (no pair occurs twice), which keeps it clear of a division by zero.
#[derive(Clone, Copy, PartialEq, Eq, Debug, Structural)]
pub struct LogRatio {
    pub count: u32,
    pub max: u32,
}

impl LogRatio {
    pub open spec fn spec_is_zero(self) -> bool {
        self.count == 0 || self.max <= 1
    }

    pub open spec fn spec_is_one(self) -> bool {
        self.max > 1 && self.count == self.max
    }

    /// Whether the value lies in `[0, 1]`: `ln` is monotone, so this holds when the
    /// count does not exceed the maximum.
    pub open spec fn in_unit_range(self) -> bool {
        self.count <= self.max
    }

    /// Whether the value is exactly zero.
    pub fn is_zero(&self) -> (r: bool)
        ensures
            r == self.spec_is_zero(),
    {
        self.count == 0 || self.max <= 1
    }

    /// Whether the value is exactly one.
    pub fn is_one(&self) -> (r: bool)
        ensures
            r == self.spec_is_one(),
    {
        self.max > 1 && self.count == self.max
    }
}

/// The feature vector of a grid: each cell scaled against the grid's largest count.
pub open spec fn features(counts: Seq<u32>) -> Seq<LogRatio> {
    Seq::new(counts.len(), |i: int| LogRatio { count: counts[i], max: peak_of(counts) })
}

/// The feature vector of a byte buffer.
pub open spec fn features_of(b: Seq<u8>) -> Seq<LogRatio> {
    features(filled(empty_counts(), b))
}

/// Raising one cell of a grid raises its peak to at least the new value.
proof fn lemma_peak_update(s: Seq<u32>, k: int, v: u32)
    requires
        0 <= k < s.len(),
        v >= s[k],
    ensures
        peak_of(s.update(k, v)) == if v > peak_of(s) {
            v
        } else {
            peak_of(s)
        },
    decreases s.len(),
{
    let t = s.update(k, v);
    if k == s.len() - 1 {
        assert(t.drop_last() =~= s.drop_last());
        lemma_peak_bounds(s.drop_last());
    } else {
        assert(t.drop_last() =~= s.drop_last().update(k, v));
        lemma_peak_update(s.drop_last(), k, v);
    }
}

/// Every count is at most the peak, and a non-empty grid attains its peak.
pub proof fn lemma_peak_bounds(s: Seq<u32>)
    ensures
        forall|i: int| 0 <= i < s.len() ==> #[trigger] s[i] <= peak_of(s),
        s.len() > 0 ==> exists|i: int| 0 <= i < s.len() && s[i] == peak_of(s),
    decreases s.len(),
{
    if s.len() > 0 {
        let d = s.drop_last();
        lemma_peak_bounds(d);
        assert forall|i: int| 0 <= i < s.len() implies #[trigger] s[i] <= peak_of(s) by {
            if i < s.len() - 1 {
                assert(s[i] == d[i]);
            }
        }
        if s.last() <= peak_of(d) && d.len() > 0 {
            let j = choose|j: int| 0 <= j < d.len() && d[j] == peak_of(d);
            assert(s[j] == peak_of(s));
        } else {
            assert(s[s.len() - 1] == peak_of(s));
        }
    }
}

/// A grid of zeros has peak zero.
proof fn lemma_peak_of_zeros(s: Seq<u32>)
    requires
        forall|i: int| 0 <= i < s.len() ==> s[i] == 0,
    ensures
        peak_of(s) == 0,
    decreases s.len(),
{
    if s.len() > 0 {
        lemma_peak_of_zeros(s.drop_last());
    }
}

/// A buffer shorter than two bytes has no adjacent pair, so its feature vector is all zero.
pub proof fn lemma_short_input_exports_zero(b: Seq<u8>)
    requires
        b.len() < 2,
    ensures
        features_of(b).len() == CELLS,
        forall|i: int| 0 <= i < CELLS ==> #[trigger] features_of(b)[i].spec_is_zero(),
{
    let g = filled(empty_counts(), b);
    assert(g =~= empty_counts());
    lemma_peak_of_zeros(g);
}

/// Every value of a feature vector lies in `[0, 1]`, and the cell of the most frequent
/// pair is exactly one as soon as some other pair occurs, less often.
pub proof fn lemma_features_in_unit_range(b: Seq<u8>)
    ensures
        features_of(b).len() == CELLS,
        forall|i: int| 0 <= i < CELLS ==> #[trigger] features_of(b)[i].in_unit_range(),
        forall|i: int, j: int|
            0 <= i < CELLS && 0 <= j < CELLS && features_of(b)[i].count == features_of(b)[i].max
                && 0 < #[trigger] features_of(b)[j].count < features_of(b)[i].count
                ==> #[trigger] features_of(b)[i].spec_is_one(),
{
    let g = filled(empty_counts(), b);
    lemma_peak_bounds(g);
    assert forall|i: int| 0 <= i < CELLS implies #[trigger] features_of(b)[i].in_unit_range() by {
        assert(g[i] <= peak_of(g));
    }
}

/// The feature vector depends on the bytes alone: two tables, each cleared and then
/// filled with the same bytes, hold the same grid and export the same vector.
pub proof fn lemma_parse_deterministic(first: Seq<u32>, second: Seq<u32>, b: Seq<u8>)
    requires
        first == empty_counts(),
        second == empty_counts(),
    ensures
        filled(first, b) == filled(second, b),
        features(filled(first, b)) == features(filled(second, b)),
        features(filled(first, b)) == features_of(b),
{
}

/// A 256 x 256 grid of byte-pair counts, stored flat with the pair `(x, y)` at
/// `y * 256 + x`, together with the largest count seen so far.
pub struct BinaryTable {
    max: u32,
    dots: Vec<u32>,
}

impl View for BinaryTable {
    type V = Seq<u32>;

    closed spec fn view(&self) -> Seq<u32> {
        self.dots@
    }
}

impl BinaryTable {
    /// The grid has one counter per cell and the running maximum equals its peak.
    pub closed spec fn wf(&self) -> bool {
        self.dots@.len() == CELLS && self.max == peak_of(self.dots@)
    }

    /// An empty table.
    pub fn new() -> (r: Self)
        ensures
            r.wf(),
            r@ == empty_counts(),
    {
        let mut dots: Vec<u32> = Vec::new();
        let mut i: usize = 0;
        while i < CELLS
            invariant
                i <= CELLS,
                dots@.len() == i,
                forall|c: int| 0 <= c < i ==> dots@[c] == 0,
            decreases CELLS - i,
        {
            dots.push(0);
            i += 1;
        }
        proof {
            lemma_peak_of_zeros(dots@);
            assert(dots@ =~= empty_counts());
        }
        BinaryTable { max: 0, dots }
    }

    /// Resets every count and the maximum to zero, keeping the storage.
    pub fn clear(&mut self)
        requires
            old(self).wf(),
        ensures
            final(self).wf(),
            final(self)@ == empty_counts(),
    {
        let mut i: usize = 0;
        while i < CELLS
            invariant
                i <= CELLS,
                self.dots@.len() == CELLS,
                forall|c: int| 0 <= c < i ==> self.dots@[c] == 0,
            decreases CELLS - i,
        {
            self.dots.set(i, 0);
            i += 1;
        }
        self.max = 0;
        proof {
            lemma_peak_of_zeros(self.dots@);
            assert(self.dots@ =~= empty_counts());
        }
    }

    /// Adds every adjacent pair of `bytes` to the grid, saturating at the largest `u32`,
    /// and keeps the maximum up to date as it goes.
    pub fn parse(&mut self, bytes: &[u8])
        requires
            old(self).wf(),
        ensures
            final(self).wf(),
            final(self)@ == filled(old(self)@, bytes@),
    {
        let n = bytes.len();
        let mut i: usize = 0;
        while i + 1 < n
            invariant
                n == bytes@.len(),
                i == 0 || i < n,
                self.wf(),
                forall|c: int|
                    0 <= c < CELLS ==> #[trigger] self.dots@[c] == saturate(
                        old(self)@[c] + pairs_upto(bytes@, i as int, c),
                    ),
            decreases n - i,
        {
            let x = bytes[i];
            let y = bytes[i + 1];
            let k: usize = (y as usize) * 256 + (x as usize);
            let v = self.dots[k].saturating_add(1);
            proof {
                lemma_peak_update(self.dots@, k as int, v);
            }
            self.dots.set(k, v);
            if v > self.max {
                self.max = v;
            }
            assert forall|c: int| 0 <= c < CELLS implies #[trigger] self.dots@[c] == saturate(
                old(self)@[c] + pairs_upto(bytes@, i + 1, c),
            ) by {
                assert(cell_of(bytes@[i as int], bytes@[i + 1]) == k);
            }
            i += 1;
        }
        assert(self.dots@ =~= filled(old(self)@, bytes@));
    }

    /// The feature vector of the grid: every cell against the largest count.
    pub fn export(&self) -> (r: Vec<LogRatio>)
        requires
            self.wf(),
        ensures
            r@ == features(self@),
    {
        let mut r: Vec<LogRatio> = Vec::new();
        let mut i: usize = 0;
        while i < CELLS
            invariant
                self.wf(),
                i <= CELLS,
                r@.len() == i,
                forall|c: int|
                    0 <= c < i ==> #[trigger] r@[c] == (LogRatio {
                        count: self.dots@[c],
                        max: peak_of(self.dots@),
                    }),
            decreases CELLS - i,
        {
            r.push(LogRatio { count: self.dots[i], max: self.max });
            i += 1;
        }
        assert(r@ =~= features(self@));
        r
    }

    /// A cleared table filled with some bytes is indistinguishable from a new table filled
    /// with the same bytes: clearing leaves the grid of a new table, whatever it held.
    pub proof fn lemma_reuse_matches_fresh(reused: BinaryTable, fresh: BinaryTable, b: Seq<u8>)
        requires
            reused.wf(),
            fresh.wf(),
            reused@ == empty_counts(),
            fresh@ == empty_counts(),
        ensures
            filled(reused@, b) == filled(fresh@, b),
            features(filled(reused@, b)) == features(filled(fresh@, b)),
            features(filled(reused@, b)) == features_of(b),
    {
    }

    /// The count of byte `x` followed by byte `y`.
    pub fn count(&self, x: u8, y: u8) -> (r: u32)
        requires
            self.wf(),
        ensures
            r == self@[cell_of(x, y)],
    {
        self.dots[(y as usize) * 256 + (x as usize)]
    }

    /// The largest count of the grid.
    pub fn max_count(&self) -> (r: u32)
        requires
            self.wf(),
        ensures
            r == peak_of(self@),
    {
        self.max
    }
}

impl Default for BinaryTable {
    fn default() -> (r: Self)
        ensures
            r.wf(),
            r@ == empty_counts(),
    {
        BinaryTable::new()
    }
}

} // verus!
