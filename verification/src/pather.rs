//! A cache of tree paths packed into one vector of integers, so that an item
//! index, which carries a single integer id, can stand for a whole path from the
//! root of a tree.
//!
//! The vector is a run of records. A record at position `p` is a header `-k`
//! followed by the `k` child positions of a path; the record at position 0 is the
//! empty path `[0]`. The id of a path is the position of its record.
use vstd::prelude::*;

verus! {

/// The path that the record at `id` stands for, if `id` holds a header (a value
/// that is not positive).
pub open spec fn path_at(v: Seq<i32>, id: int) -> Option<Seq<i32>> {
    if 0 <= id < v.len() && v[id] <= 0 {
        Some(v.subrange(id + 1, id + 1 - v[id]))
    } else {
        None
    }
}

/// The record at `id`: its header and path.
pub open spec fn record_at(v: Seq<i32>, id: int) -> Seq<i32> {
    v.subrange(id, id + 1 - v[id])
}

/// The record of the path at `id` extended by `x`.
pub open spec fn child_record(v: Seq<i32>, id: int, x: i32) -> Seq<i32> {
    seq![(v[id] - 1) as i32] + v.subrange(id + 1, id + 1 - v[id]) + seq![x]
}

/// The record of the path at `id` with its last element taken off.
pub open spec fn parent_record(v: Seq<i32>, id: int) -> Seq<i32> {
    seq![(v[id] + 1) as i32] + v.subrange(id + 1, id - v[id])
}

/// `r` stands in `v` from position `pos` on.
pub open spec fn stands_at(v: Seq<i32>, pos: int, r: Seq<i32>) -> bool {
    0 <= pos && pos + r.len() <= v.len() && v.subrange(pos, pos + r.len()) == r
}

/// The first position at or after `from` where `r` stands in `v`.
pub open spec fn first_match(v: Seq<i32>, r: Seq<i32>, from: int) -> Option<int>
    decreases v.len() - from,
{
    if from < 0 || from >= v.len() || from + r.len() > v.len() {
        None
    } else if stands_at(v, from, r) {
        Some(from)
    } else {
        first_match(v, r, from + 1)
    }
}

/// The last position below `below` where `r` stands in `v`.
pub open spec fn last_match(v: Seq<i32>, r: Seq<i32>, below: int) -> Option<int>
    decreases below,
{
    if below <= 0 {
        None
    } else if stands_at(v, below - 1, r) {
        Some(below - 1)
    } else {
        last_match(v, r, below - 1)
    }
}

/// Every negative entry is the header of a record that fits in the vector, and
/// whose path entries are not negative.
#[verifier::opaque]
pub open spec fn records_fit(v: Seq<i32>) -> bool {
    forall|p: int|
        #![trigger v[p]]
        0 <= p < v.len() && v[p] < 0 ==> {
            &&& p - v[p] < v.len()
            &&& forall|j: int| p < j <= p - v[p] ==> v[j] >= 0
        }
}

/// `id` holds a header that cannot be negated: the header of a path of 2^31 steps,
/// on which reading the path fails.
pub open spec fn overlong_at(v: Seq<i32>, id: int) -> bool {
    0 <= id < v.len() && v[id] == i32::MIN
}

/// Every record of a path of two or more steps has, before it, the record of the
/// path without its last step.
#[verifier::opaque]
pub open spec fn prefix_closed(v: Seq<i32>) -> bool {
    forall|p: int|
        #![trigger v[p]]
        0 <= p < v.len() && v[p] < -1 ==> exists|q: int|
            0 <= q < p && #[trigger] stands_at(v, q, parent_record(v, p))
}

/// The shape every path cache keeps.
pub open spec fn cache_wf(v: Seq<i32>) -> bool {
    &&& v.len() >= 1
    &&& v[0] == 0
    &&& records_fit(v)
    &&& prefix_closed(v)
}

/// What extending the path at `id` by `x` answers, and the cache it leaves: the id
/// of an existing record of the extended path found after the record at `id`, or
/// else the id of a new record appended at the end. Nothing where `id` holds no
/// path.
pub open spec fn spec_extend(v: Seq<i32>, id: int, x: i32) -> (Option<int>, Seq<i32>) {
    match path_at(v, id) {
        None => (None, v),
        Some(_) => {
            let r = child_record(v, id, x);
            match first_match(v, r, id + 1 - v[id]) {
                Some(p) => (Some(p), v),
                None => (Some(v.len() as int), v + r),
            }
        },
    }
}

/// What asking for the parent of the path at `id` answers: the id of the last
/// record before it of the path without its last step, and that last step.
/// Nothing where `id` holds no header of a non-empty path.
pub open spec fn spec_parent(v: Seq<i32>, id: int) -> Option<(int, i32)> {
    if !(0 <= id < v.len()) || v[id] >= 0 {
        None
    } else if v[id] == -1 {
        Some((0int, v[id + 1]))
    } else {
        match last_match(v, parent_record(v, id), id + 1 + v[id]) {
            Some(q) => Some((q, v[id - v[id]])),
            None => None,
        }
    }
}

/// An id answered by a cache operation, as an integer.
pub open spec fn id_of(r: Option<usize>) -> Option<int> {
    match r {
        Some(p) => Some(p as int),
        None => None,
    }
}

/// A parent answered by a cache operation, with its id as an integer.
pub open spec fn parent_of(r: Option<(usize, i32)>) -> Option<(int, i32)> {
    match r {
        Some((q, t)) => Some((q as int, t)),
        None => None,
    }
}

/// A path cache.
pub struct PathCache {
    data: Vec<i32>,
}

impl View for PathCache {
    type V = Seq<i32>;

    closed spec fn view(&self) -> Seq<i32> {
        self.data@
    }
}

/// A copy of `v[lo..hi]`.
fn copy_range(v: &Vec<i32>, lo: usize, hi: usize) -> (r: Vec<i32>)
    requires
        lo <= hi <= v@.len(),
    ensures
        r@ == v@.subrange(lo as int, hi as int),
{
    let mut r: Vec<i32> = Vec::new();
    let mut i: usize = lo;
    while i < hi
        invariant
            lo <= i <= hi <= v@.len(),
            r@ == v@.subrange(lo as int, i as int),
        decreases hi - i,
    {
        r.push(v[i]);
        i = i + 1;
        assert(r@ =~= v@.subrange(lo as int, i as int));
    }
    r
}

/// Whether `r` stands in `v` from `pos` on.
fn window_eq(v: &Vec<i32>, pos: usize, r: &Vec<i32>) -> (b: bool)
    requires
        pos + r@.len() <= v@.len(),
    ensures
        b == stands_at(v@, pos as int, r@),
{
    let n = r.len();
    let vlen = v.len();
    let mut j: usize = 0;
    while j < n
        invariant
            vlen == v@.len(),
            n == r@.len(),
            pos + n <= v@.len(),
            j <= n,
            forall|k: int| 0 <= k < j ==> v@[pos + k] == r@[k],
        decreases n - j,
    {
        if v[pos + j] != r[j] {
            assert(v@.subrange(pos as int, pos + n)[j as int] != r@[j as int]);
            return false;
        }
        j = j + 1;
    }
    assert(v@.subrange(pos as int, pos + n) =~= r@);
    true
}

/// Facts about the record at a header position.
proof fn lemma_record(v: Seq<i32>, p: int)
    requires
        cache_wf(v),
        0 <= p < v.len(),
        v[p] < 0,
    ensures
        p - v[p] < v.len(),
        forall|j: int| p < j <= p - v[p] ==> v[j] >= 0,
{
    reveal(records_fit);
}

/// Appending the record of an extended path keeps a cache well formed.
proof fn lemma_append_keeps_wf(v: Seq<i32>, id: int, x: i32)
    requires
        cache_wf(v),
        path_at(v, id) is Some,
        !overlong_at(v, id),
        x >= 0,
    ensures
        cache_wf(v + child_record(v, id, x)),
{
    reveal(records_fit);
    reveal(prefix_closed);
    let r = child_record(v, id, x);
    let w = v + r;
    let l = v.len() as int;
    let k = -v[id];
    if v[id] < 0 {
        lemma_record(v, id);
    }
    assert(r.len() == k + 2);
    assert forall|j: int| 0 <= j < l implies w[j] == v[j] by {}
    assert(w[l] == v[id] - 1);
    assert forall|j: int| 1 <= j <= k implies #[trigger] w[l + j] == v[id + j] && w[l + j] >= 0 by {
        assert(r[j] == v[id + j]);
    }
    assert(w[l + k + 1] == x);
    assert forall|p: int| 0 <= p < w.len() && w[p] < 0 implies {
        &&& p - w[p] < w.len()
        &&& forall|j: int| p < j <= p - w[p] ==> w[j] >= 0
    } by {
        if p < l {
            lemma_record(v, p);
            assert forall|j: int| p < j <= p - w[p] implies w[j] >= 0 by {
                assert(w[j] == v[j]);
            }
        } else if p > l {
            let j = p - l;
            assert(1 <= j <= k + 1);
            if j <= k {
                assert(w[l + j] >= 0);
            }
        } else {
            assert forall|j: int| p < j <= p - w[p] implies w[j] >= 0 by {
                let i = j - l;
                if i <= k {
                    assert(w[l + i] >= 0);
                }
            }
        }
    }
    assert forall|p: int| 0 <= p < w.len() && w[p] < -1 implies exists|q: int|
        0 <= q < p && #[trigger] stands_at(w, q, parent_record(w, p)) by {
        if p < l {
            let q = choose|q: int| 0 <= q < p && #[trigger] stands_at(v, q, parent_record(v, p));
            lemma_record(v, p);
            assert(parent_record(w, p) =~= parent_record(v, p));
            assert(w.subrange(q, q + parent_record(w, p).len()) =~= v.subrange(
                q,
                q + parent_record(v, p).len(),
            ));
            assert(stands_at(w, q, parent_record(w, p)));
        } else if p > l {
            let j = p - l;
            if j <= k {
                assert(w[l + j] >= 0);
            }
        } else {
            assert(k >= 1);
            assert(parent_record(w, p) =~= record_at(v, id));
            assert(w.subrange(id, id + k + 1) =~= v.subrange(id, id + k + 1));
            assert(stands_at(w, id, parent_record(w, p)));
        }
    }
}

impl PathCache {
    /// The cache's shape holds, and its length fits a `usize`.
    pub open spec fn wf(&self) -> bool {
        &&& cache_wf(self@)
        &&& self@.len() <= usize::MAX
    }

    /// A cache that knows only the empty path, under id 0.
    pub fn new() -> (c: Self)
        ensures
            c.wf(),
            c@ == seq![0i32],
    {
        let c = PathCache { data: vec![0] };
        assert(c@ =~= seq![0i32]);
        proof {
            reveal(records_fit);
            reveal(prefix_closed);
        }
        c
    }

    /// The record at `id` (with its header, where `with_header`) or its path alone.
    pub fn from_id_raw(&self, id: usize, with_header: bool) -> (r: Option<Vec<i32>>)
        requires
            self.wf(),
            !overlong_at(self@, id as int),
        ensures
            match path_at(self@, id as int) {
                None => r is None,
                Some(path) => r matches Some(rec) && rec@ == (if with_header {
                    record_at(self@, id as int)
                } else {
                    path
                }),
            },
    {
        if id < self.data.len() {
            let n = self.data[id];
            if n <= 0 {
                proof {
                    if n < 0 {
                        lemma_record(self@, id as int);
                    }
                }
                let sz: usize = (-n) as usize;
                let lo = if with_header {
                    id
                } else {
                    id + 1
                };
                return Some(copy_range(&self.data, lo, id + sz + 1));
            }
        }
        None
    }

    /// Whether `id` holds the header of a path too long to be read back.
    pub fn is_overlong(&self, id: usize) -> (b: bool)
        ensures
            b == overlong_at(self@, id as int),
    {
        id < self.data.len() && self.data[id] == i32::MIN
    }

    /// The path with id `id`.
    pub fn from_id(&self, id: usize) -> (r: Option<Vec<i32>>)
        requires
            self.wf(),
            !overlong_at(self@, id as int),
        ensures
            match path_at(self@, id as int) {
                None => r is None,
                Some(path) => r matches Some(p) && p@ == path,
            },
    {
        self.from_id_raw(id, false)
    }

    /// The id of the path with id `id` extended by the step `x`, recording that path
    /// where no record of it stands after the record at `id`.
    pub fn extend(&mut self, id: usize, x: i32) -> (r: Option<usize>)
        requires
            old(self).wf(),
            !overlong_at(old(self)@, id as int),
            x >= 0,
        ensures
            final(self).wf(),
            (id_of(r), final(self)@) == spec_extend(old(self)@, id as int, x),
    {
        let ghost v = self@;
        let orig = match self.from_id_raw(id, true) {
            Some(o) => o,
            None => return None,
        };
        proof {
            if v[id as int] < 0 {
                lemma_record(v, id as int);
            }
        }
        let mut rec = orig;
        let head = rec[0] - 1;
        rec.set(0, head);
        rec.push(x);
        assert(rec@ =~= child_record(v, id as int, x));
        let n = rec.len();
        assert(n == 2 - v[id as int]);
        assert(id + 1 - v[id as int] <= v.len());
        let len = self.data.len();
        let start = id + (n - 1);
        let mut pos = start;
        while pos <= len && n <= len - pos
            invariant
                v == self@,
                cache_wf(v),
                path_at(v, id as int) is Some,
                !overlong_at(v, id as int),
                len == v.len(),
                n == rec@.len(),
                rec@ == child_record(v, id as int, x),
                start == id + 1 - v[id as int],
                start <= pos,
                first_match(v, rec@, start as int) == first_match(v, rec@, pos as int),
            decreases len + 1 - pos,
        {
            if window_eq(&self.data, pos, &rec) {
                return Some(pos);
            }
            pos = pos + 1;
        }
        assert(first_match(v, rec@, pos as int) is None);
        let mut d: Vec<i32> = vec![0];
        std::mem::swap(&mut d, &mut self.data);
        let mut i: usize = 0;
        while i < n
            invariant
                d@ == v + rec@.subrange(0, i as int),
                i <= n,
                n == rec@.len(),
            decreases n - i,
        {
            d.push(rec[i]);
            i = i + 1;
            assert(d@ =~= v + rec@.subrange(0, i as int));
        }
        assert(rec@.subrange(0, n as int) =~= rec@);
        proof {
            lemma_append_keeps_wf(v, id as int, x);
        }
        let _new_len = d.len();
        self.data = d;
        Some(len)
    }

    /// The id of the parent path of the path with id `id`, and the last step of
    /// the path.
    pub fn parent(&self, id: usize) -> (r: Option<(usize, i32)>)
        requires
            self.wf(),
            !overlong_at(self@, id as int),
        ensures
            parent_of(r) == spec_parent(self@, id as int),
    {
        let ghost v = self@;
        if id >= self.data.len() {
            return None;
        }
        let n = self.data[id];
        if n >= 0 {
            return None;
        }
        proof {
            lemma_record(v, id as int);
        }
        let k: usize = (-n) as usize;
        if k == 1 {
            return Some((0, self.data[id + 1]));
        }
        let parent_len = k - 1;
        let mut want = copy_range(&self.data, id, id + parent_len + 1);
        want.set(0, n + 1);
        assert(want@ =~= parent_record(v, id as int));
        let tip = self.data[id + k];
        proof {
            lemma_parent_below(v, id as int);
        }
        let max = id - parent_len;
        let mut x = max;
        while x > 0
            invariant
                v == self@,
                n == v[id as int],
                n < -1,
                tip == v[id - v[id as int]],
                x <= max,
                max + parent_len == id,
                max == id + 1 + v[id as int],
                id < v.len(),
                want@ == parent_record(v, id as int),
                want@.len() == parent_len + 1,
                last_match(v, want@, max as int) == last_match(v, want@, x as int),
            decreases x,
        {
            if window_eq(&self.data, x - 1, &want) {
                return Some((x - 1, tip));
            }
            x = x - 1;
        }
        None
    }
}

/// A header of a path of two or more steps stands past a record of its parent path.
proof fn lemma_parent_below(v: Seq<i32>, id: int) -> (q: int)
    requires
        cache_wf(v),
        0 <= id < v.len(),
        v[id] < -1,
    ensures
        0 <= q < id + 1 + v[id],
        stands_at(v, q, parent_record(v, id)),
{
    reveal(prefix_closed);
    let q = choose|q: int| 0 <= q < id && #[trigger] stands_at(v, q, parent_record(v, id));
    let pr = parent_record(v, id);
    assert(v[q] == pr[0]);
    lemma_record(v, id);
    if id < q - v[id] {
        assert(v.subrange(q, q + pr.len())[id - q] == v[id]);
    }
    q
}

/// Searching downwards from `below` finds a record that stands at `q < below`, or
/// a later one.
proof fn lemma_last_match_finds(v: Seq<i32>, r: Seq<i32>, below: int, q: int)
    requires
        0 <= q < below,
        stands_at(v, q, r),
    ensures
        last_match(v, r, below) matches Some(m) && q <= m < below && stands_at(v, m, r),
    decreases below,
{
    if !stands_at(v, below - 1, r) {
        lemma_last_match_finds(v, r, below - 1, q);
    }
}

/// Where the upward search from `from` finds nothing, nothing stands at or after `from`.
proof fn lemma_first_match_none(v: Seq<i32>, r: Seq<i32>, from: int, pos: int)
    requires
        0 <= from <= pos,
        r.len() > 0,
        first_match(v, r, from) is None,
    ensures
        !stands_at(v, pos, r),
    decreases pos - from,
{
    if from < v.len() && from + r.len() <= v.len() && pos > from {
        lemma_first_match_none(v, r, from + 1, pos);
    }
}

/// The upward search from `from` finds the first position at which `r` stands.
proof fn lemma_first_match_at(v: Seq<i32>, r: Seq<i32>, from: int, m: int)
    requires
        0 <= from <= m,
        r.len() > 0,
        stands_at(v, m, r),
        forall|pos: int| from <= pos < m ==> !#[trigger] stands_at(v, pos, r),
    ensures
        first_match(v, r, from) == Some(m),
    decreases m - from,
{
    if from < m {
        lemma_first_match_at(v, r, from + 1, m);
    }
}

/// A position that the upward search answers holds a match at or after where it began.
proof fn lemma_first_match_stands(v: Seq<i32>, r: Seq<i32>, from: int)
    requires
        first_match(v, r, from) is Some,
    ensures
        first_match(v, r, from) matches Some(p) && p >= from && stands_at(v, p, r),
    decreases v.len() - from,
{
    if !stands_at(v, from, r) {
        lemma_first_match_stands(v, r, from + 1);
    }
}

/// A record of the extended path stands at the id that extending answers.
proof fn lemma_extend_result_stands(v: Seq<i32>, id: int, x: i32)
    requires
        cache_wf(v),
        x >= 0,
        spec_extend(v, id, x).0 is Some,
    ensures
        ({
            let (r, w) = spec_extend(v, id, x);
            let p = r->0;
            &&& stands_at(w, p, child_record(v, id, x))
            &&& p >= id + 1 - v[id]
            &&& v[id] <= 0
            &&& 0 <= id < v.len()
            &&& w.subrange(0, v.len() as int) == v
        }),
{
    let (r, w) = spec_extend(v, id, x);
    let rec = child_record(v, id, x);
    if v[id] < 0 {
        lemma_record(v, id);
    }
    match first_match(v, rec, id + 1 - v[id]) {
        Some(p) => {
            lemma_first_match_stands(v, rec, id + 1 - v[id]);
            assert(w.subrange(0, v.len() as int) =~= v);
        },
        None => {
            assert(w.subrange(v.len() as int, (v.len() + rec.len()) as int) =~= rec);
            assert(w.subrange(0, v.len() as int) =~= v);
        },
    }
}

/// The id of the root path, 0, stands for the empty path.
pub proof fn lemma_root_path(v: Seq<i32>)
    requires
        cache_wf(v),
    ensures
        path_at(v, 0) == Some(Seq::<i32>::empty()),
{
    assert(v.subrange(1, 1) =~= Seq::<i32>::empty());
}

/// Reading the id that extending the path at `id` by `x` answers gives that path
/// with `x` added at its end.
pub proof fn lemma_extend_reads_back(v: Seq<i32>, id: int, x: i32)
    requires
        cache_wf(v),
        !overlong_at(v, id),
        x >= 0,
    ensures
        ({
            let (r, w) = spec_extend(v, id, x);
            r matches Some(p) ==> path_at(w, p) == Some(path_at(v, id)->0.push(x))
        }),
{
    let (r, w) = spec_extend(v, id, x);
    if r is Some {
        lemma_extend_result_stands(v, id, x);
        let p = r->0;
        let rec = child_record(v, id, x);
        if v[id] < 0 {
            lemma_record(v, id);
        }
        assert(w[p] == rec[0]);
        assert(w.subrange(p + 1, p + 1 - w[p]) =~= rec.subrange(1, rec.len() as int));
        assert(rec.subrange(1, rec.len() as int) =~= path_at(v, id)->0.push(x));
    }
}

/// Extending leaves every id that was already in the cache standing for the same path.
pub proof fn lemma_extend_keeps_paths(v: Seq<i32>, id: int, x: i32, q: int)
    requires
        cache_wf(v),
        x >= 0,
        0 <= q < v.len(),
    ensures
        path_at(spec_extend(v, id, x).1, q) == path_at(v, q),
{
    let w = spec_extend(v, id, x).1;
    if spec_extend(v, id, x).0 is Some {
        lemma_extend_result_stands(v, id, x);
    }
    assert(w.subrange(0, v.len() as int) =~= v);
    assert(w[q] == v[q]);
    if v[q] < 0 {
        lemma_record(v, q);
        assert(w.subrange(q + 1, q + 1 - w[q]) =~= v.subrange(q + 1, q + 1 - v[q]));
    } else if v[q] == 0 {
        assert(w.subrange(q + 1, q + 1) =~= v.subrange(q + 1, q + 1));
    }
}

/// Where the record of the path at `id` extended by `x` stands at `p`, past the
/// record at `id`, the parent of `p` is an id of the path at `id`, with step `x`.
proof fn lemma_parent_of_record(w: Seq<i32>, id: int, p: int, x: i32)
    requires
        0 <= id < w.len(),
        w[0] == 0,
        w[id] <= 0,
        w[id] > i32::MIN,
        id + 1 - w[id] <= p,
        stands_at(w, p, child_record(w, id, x)),
    ensures
        spec_parent(w, p) matches Some((q, t)) && t == x && path_at(w, q) == path_at(w, id) && 0
            <= q < p,
{
    let rec = child_record(w, id, x);
    let k = -w[id];
    assert(rec.len() == k + 2);
    assert(w[p] == rec[0]);
    assert(w[p + k + 1] == rec[k + 1]);
    if k > 0 {
        let pr = parent_record(w, p);
        assert(pr =~= record_at(w, id)) by {
            assert forall|j: int| 1 <= j <= k implies #[trigger] pr[j] == w[id + j] by {
                assert(pr[j] == w[p + j]);
                assert(w[p + j] == rec[j]);
            }
        }
        assert(w.subrange(id, id + pr.len()) =~= pr);
        lemma_last_match_finds(w, pr, p + 1 + w[p], id);
        let q = last_match(w, pr, p + 1 + w[p])->0;
        assert(w[q] == pr[0]);
        assert(w.subrange(q + 1, q + 1 - w[q]) =~= pr.subrange(1, pr.len() as int));
        assert(w.subrange(id + 1, id + 1 - w[id]) =~= pr.subrange(1, pr.len() as int));
    } else {
        assert(w[p + 1] == x);
        assert(w.subrange(1, 1) =~= w.subrange(id + 1, id + 1));
    }
}

/// Asking for the parent of the id that extending the path at `id` by `x` answers
/// gives an id of the path at `id` back, and the step `x`.
pub proof fn lemma_parent_undoes_extend(v: Seq<i32>, id: int, x: i32)
    requires
        cache_wf(v),
        !overlong_at(v, id),
        x >= 0,
        spec_extend(v, id, x).0 is Some,
    ensures
        ({
            let (r, w) = spec_extend(v, id, x);
            spec_parent(w, r->0) matches Some((q, t)) && t == x && path_at(w, q) == path_at(v, id)
                && 0 <= q < r->0
        }),
{
    let (r, w) = spec_extend(v, id, x);
    let p = r->0;
    lemma_extend_result_stands(v, id, x);
    lemma_extend_keeps_paths(v, id, x, id);
    lemma_extend_keeps_paths(v, id, x, 0);
    lemma_root_path(v);
    if v[id] < 0 {
        lemma_record(v, id);
    }
    assert(w[id] == v[id]);
    assert(child_record(w, id, x) =~= child_record(v, id, x)) by {
        assert(w.subrange(id + 1, id + 1 - w[id]) =~= v.subrange(id + 1, id + 1 - v[id]));
    }
    lemma_parent_of_record(w, id, p, x);
}

/// Every id that holds the header of a non-empty path has a parent.
pub proof fn lemma_parent_exists(v: Seq<i32>, id: int)
    requires
        cache_wf(v),
        0 <= id < v.len(),
        v[id] < 0,
    ensures
        spec_parent(v, id) is Some,
{
    if v[id] < -1 {
        let q = lemma_parent_below(v, id);
        lemma_last_match_finds(v, parent_record(v, id), id + 1 + v[id], q);
    }
}

/// Extending the same path by the same step a second time answers the same id and
/// leaves the cache as it is.
pub proof fn lemma_extend_idempotent(v: Seq<i32>, id: int, x: i32)
    requires
        cache_wf(v),
        !overlong_at(v, id),
        x >= 0,
    ensures
        ({
            let (r, w) = spec_extend(v, id, x);
            spec_extend(w, id, x) == (r, w)
        }),
{
    let (r, w) = spec_extend(v, id, x);
    if r is Some {
        lemma_extend_result_stands(v, id, x);
        lemma_extend_keeps_paths(v, id, x, id);
        let rec = child_record(v, id, x);
        if v[id] < 0 {
            lemma_record(v, id);
        }
        assert(w[id] == v[id]);
        assert(child_record(w, id, x) =~= rec) by {
            assert(w.subrange(id + 1, id + 1 - w[id]) =~= v.subrange(id + 1, id + 1 - v[id]));
        }
        let start = id + 1 - v[id];
        match first_match(v, rec, start) {
            Some(m) => {},
            None => {
                let l = v.len() as int;
                assert forall|pos: int| start <= pos < l implies !#[trigger] stands_at(
                    w,
                    pos,
                    rec,
                ) by {
                    if stands_at(w, pos, rec) {
                        if pos + rec.len() <= l {
                            assert(w.subrange(pos, pos + rec.len()) =~= v.subrange(
                                pos,
                                pos + rec.len(),
                            ));
                            lemma_first_match_none(v, rec, start, pos);
                        } else {
                            assert(w[pos] == rec[0]);
                            assert(v[pos] == w[pos]);
                            lemma_record(v, pos);
                        }
                    }
                }
                lemma_first_match_at(w, rec, start, l);
            },
        }
    }
}

/// The id that extending answers is at most the length of the cache before.
pub proof fn lemma_extend_result_bounded(v: Seq<i32>, id: int, x: i32)
    requires
        cache_wf(v),
        x >= 0,
    ensures
        spec_extend(v, id, x).0 matches Some(p) ==> 0 <= p <= v.len(),
{
    if spec_extend(v, id, x).0 is Some {
        lemma_extend_result_stands(v, id, x);
    }
}

/// `p` is where a record starts: the root record at 0, or a header.
pub open spec fn is_record_start(v: Seq<i32>, p: int) -> bool {
    0 <= p < v.len() && (p == 0 || v[p] < 0)
}

/// No path is recorded twice: two record starts with the same path are the same.
pub open spec fn records_unique(v: Seq<i32>) -> bool {
    forall|p: int, q: int|
        #![trigger is_record_start(v, p), is_record_start(v, q)]
        is_record_start(v, p) && is_record_start(v, q) && path_at(v, p) == path_at(v, q) ==> p
            == q
}

/// The cache that knows only the root path records no path twice.
pub proof fn lemma_root_cache_unique()
    ensures
        records_unique(seq![0i32]),
{
}

/// A downward search that answers a position answers one where the record stands.
proof fn lemma_last_match_stands(v: Seq<i32>, r: Seq<i32>, below: int)
    requires
        last_match(v, r, below) is Some,
    ensures
        last_match(v, r, below) matches Some(m) && 0 <= m < below && stands_at(v, m, r),
    decreases below,
{
    if !stands_at(v, below - 1, r) {
        lemma_last_match_stands(v, r, below - 1);
    }
}

/// In a cache that records no path twice, every record of the path at the record
/// start `id` extended by `x` stands after the record at `id`.
proof fn lemma_extension_after(v: Seq<i32>, id: int, x: i32, q: int)
    requires
        cache_wf(v),
        records_unique(v),
        is_record_start(v, id),
        !overlong_at(v, id),
        x >= 0,
        is_record_start(v, q),
        path_at(v, q) == Some(path_at(v, id)->0.push(x)),
    ensures
        q >= id + 1 - v[id],
        stands_at(v, q, child_record(v, id, x)),
{
    let pth = path_at(v, id)->0;
    let k = -v[id];
    if v[id] < 0 {
        lemma_record(v, id);
    }
    lemma_root_path(v);
    assert(q != 0) by {
        if q == 0 {
            assert(path_at(v, 0)->0.len() == 0);
        }
    }
    assert(v[q] < 0);
    lemma_record(v, q);
    assert(v.subrange(q + 1, q + 1 - v[q]).len() == k + 1);
    assert(v[q] == -(k + 1));
    let rec = child_record(v, id, x);
    assert(v.subrange(q, q + rec.len()) =~= rec) by {
        assert forall|j: int| 0 <= j < rec.len() implies v.subrange(q, q + rec.len())[j]
            == #[trigger] rec[j] by {
            if j > 0 {
                assert(v[q + j] == v.subrange(q + 1, q + 1 - v[q])[j - 1]);
            }
        }
    }
    if k == 0 {
        assert(id == 0);
    } else {
        let qq = lemma_parent_below(v, q);
        let pr = parent_record(v, q);
        assert(v[qq] == pr[0]);
        assert(v.subrange(qq + 1, qq + 1 - v[qq]) =~= pth) by {
            assert forall|j: int| 0 <= j < k implies v.subrange(qq + 1, qq + 1 - v[qq])[j]
                == #[trigger] pth[j] by {
                assert(v[qq + 1 + j] == pr[1 + j]);
                assert(pr[1 + j] == v[q + 1 + j]);
                assert(v[q + 1 + j] == v.subrange(q + 1, q + 1 - v[q])[j]);
            }
        }
        assert(is_record_start(v, qq));
        assert(path_at(v, qq) == path_at(v, id));
        assert(qq == id);
        if q < id + 1 + k {
            assert(v[q] >= 0);
        }
    }
}

/// Where extending appends, no record of the extended path stood anywhere before.
proof fn lemma_appended_path_is_new(v: Seq<i32>, id: int, x: i32, q: int)
    requires
        cache_wf(v),
        records_unique(v),
        is_record_start(v, id),
        !overlong_at(v, id),
        x >= 0,
        first_match(v, child_record(v, id, x), id + 1 - v[id]) is None,
        is_record_start(v, q),
    ensures
        path_at(v, q) != Some(path_at(v, id)->0.push(x)),
{
    if path_at(v, q) == Some(path_at(v, id)->0.push(x)) {
        lemma_extension_after(v, id, x, q);
        if v[id] < 0 {
            lemma_record(v, id);
        }
        lemma_first_match_none(v, child_record(v, id, x), id + 1 - v[id], q);
    }
}

/// The id that extending at a record start answers is a record start.
pub proof fn lemma_extend_answers_record_start(v: Seq<i32>, id: int, x: i32)
    requires
        cache_wf(v),
        !overlong_at(v, id),
        x >= 0,
    ensures
        spec_extend(v, id, x).0 matches Some(p) ==> is_record_start(spec_extend(v, id, x).1, p),
{
    let (r, w) = spec_extend(v, id, x);
    if r is Some {
        lemma_extend_result_stands(v, id, x);
        let rec = child_record(v, id, x);
        assert(w[r->0] == rec[0]);
        if v[id] < 0 {
            lemma_record(v, id);
        }
    }
}

/// Extending at a record start keeps a cache that records no path twice so.
pub proof fn lemma_extend_keeps_unique(v: Seq<i32>, id: int, x: i32)
    requires
        cache_wf(v),
        records_unique(v),
        is_record_start(v, id),
        !overlong_at(v, id),
        x >= 0,
    ensures
        records_unique(spec_extend(v, id, x).1),
{
    let (r, w) = spec_extend(v, id, x);
    if w != v {
        let l = v.len() as int;
        let rec = child_record(v, id, x);
        if v[id] < 0 {
            lemma_record(v, id);
        }
        lemma_extend_result_stands(v, id, x);
        lemma_extend_reads_back(v, id, x);
        assert(first_match(v, rec, id + 1 - v[id]) is None);
        assert(r->0 == l);
        assert forall|p: int, q: int|
            #![trigger is_record_start(w, p), is_record_start(w, q)]
            is_record_start(w, p) && is_record_start(w, q) && path_at(w, p) == path_at(w, q)
                implies p == q by {
            assert forall|j: int| l < j < w.len() implies w[j] >= 0 by {
                let jj = j - l;
                assert(w[j] == rec[jj]);
                assert(rec.len() == 2 - v[id]);
                if jj <= -v[id] {
                    assert(rec[jj] == v.subrange(id + 1, id + 1 - v[id])[jj - 1]);
                    assert(rec[jj] == v[id + jj]);
                } else {
                    assert(rec[jj] == x);
                }
            }
            if p < l {
                lemma_extend_keeps_paths(v, id, x, p);
                assert(w[p] == v[p]);
                assert(is_record_start(v, p));
            }
            if q < l {
                lemma_extend_keeps_paths(v, id, x, q);
                assert(w[q] == v[q]);
                assert(is_record_start(v, q));
            }
            if p > l {
                assert(w[p] >= 0);
            }
            if q > l {
                assert(w[q] >= 0);
            }
            assert(path_at(w, l) == Some(path_at(v, id)->0.push(x)));
            if p < l && q == l {
                lemma_appended_path_is_new(v, id, x, p);
            }
            if q < l && p == l {
                lemma_appended_path_is_new(v, id, x, q);
            }
        }
    }
}

/// In a cache that records no path twice, the parent of the id that extending at
/// the record start `id` by `x` answers is `id` itself, with step `x`.
pub proof fn lemma_parent_inverts_extend(v: Seq<i32>, id: int, x: i32)
    requires
        cache_wf(v),
        records_unique(v),
        is_record_start(v, id),
        !overlong_at(v, id),
        x >= 0,
        spec_extend(v, id, x).0 is Some,
    ensures
        spec_parent(spec_extend(v, id, x).1, spec_extend(v, id, x).0->0) == Some((id, x)),
{
    let (r, w) = spec_extend(v, id, x);
    let p = r->0;
    lemma_parent_undoes_extend(v, id, x);
    lemma_extend_keeps_unique(v, id, x);
    lemma_extend_keeps_paths(v, id, x, id);
    lemma_extend_result_stands(v, id, x);
    let (q, t) = spec_parent(w, p)->0;
    assert(w[id] == v[id]);
    assert(is_record_start(w, id));
    if w[p] != -1 {
        lemma_last_match_stands(w, parent_record(w, p), p + 1 + w[p]);
        assert(w[q] == parent_record(w, p)[0]);
    }
    assert(is_record_start(w, q));
}

/// At a record start in a cache that records no path twice, extending appends
/// exactly when no record of the extended path stands anywhere in the cache.
pub proof fn lemma_extend_grows_only_for_new_paths(v: Seq<i32>, id: int, x: i32)
    requires
        cache_wf(v),
        records_unique(v),
        is_record_start(v, id),
        !overlong_at(v, id),
        x >= 0,
    ensures
        (spec_extend(v, id, x).1.len() > v.len()) <==> !(exists|q: int|
            #[trigger] is_record_start(v, q) && path_at(v, q) == Some(path_at(v, id)->0.push(x))),
        spec_extend(v, id, x).1.len() > v.len() ==> spec_extend(v, id, x).1 == v + child_record(
            v,
            id,
            x,
        ),
{
    let (r, w) = spec_extend(v, id, x);
    if v[id] < 0 {
        lemma_record(v, id);
    }
    let rec = child_record(v, id, x);
    match first_match(v, rec, id + 1 - v[id]) {
        Some(p) => {
            lemma_extend_reads_back(v, id, x);
            lemma_extend_answers_record_start(v, id, x);
            assert(is_record_start(v, p));
        },
        None => {
            assert forall|q: int| #[trigger] is_record_start(v, q) implies path_at(v, q) != Some(
                path_at(v, id)->0.push(x),
            ) by {
                lemma_appended_path_is_new(v, id, x, q);
            }
        },
    }
}

/// Extending only appends: the cache before is a prefix of the cache after.
pub proof fn lemma_extend_appends_only(v: Seq<i32>, id: int, x: i32)
    requires
        cache_wf(v),
        x >= 0,
    ensures
        spec_extend(v, id, x).1.len() >= v.len(),
        spec_extend(v, id, x).1.subrange(0, v.len() as int) == v,
{
    if spec_extend(v, id, x).0 is Some {
        lemma_extend_result_stands(v, id, x);
    } else {
        assert(v.subrange(0, v.len() as int) =~= v);
    }
}

} // verus!
