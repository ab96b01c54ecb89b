use vstd::prelude::*;

use crate::offset::{offset_in_range, FixedOffset, LocalResult};

verus! {

/// Timestamps handled by the library lie within this many seconds of the epoch.
pub const MAX_TIMESTAMP: i64 = 1_000_000_000_000_000;

pub open spec fn timestamp_in_range(t: int) -> bool {
    -1_000_000_000_000_000 <= t <= 1_000_000_000_000_000
}

/// A UTC instant at which the offset changes from `before` to `after`.
#[derive(Copy, Clone, Debug, PartialEq, Eq, Structural)]
pub struct Transition {
    pub utc: i64,
    pub before: i32,
    pub after: i32,
}

pub open spec fn strictly_increasing(ts: Seq<Transition>) -> bool {
    forall|i: int, j: int| 0 <= i < j < ts.len() ==> #[trigger] ts[i].utc < #[trigger] ts[j].utc
}

/// Consecutive transitions lie at least two days apart.
pub open spec fn spaced(ts: Seq<Transition>) -> bool {
    forall|i: int| 0 <= i < ts.len() - 1 ==> #[trigger] ts[i + 1].utc - ts[i].utc >= 172_800
}

/// The number of transitions at or before `u`, counted one by one.
pub open spec fn count_at_or_before(ts: Seq<Transition>, u: int) -> nat
    decreases ts.len(),
{
    if ts.len() == 0 {
        0
    } else {
        count_at_or_before(ts.drop_last(), u) + if ts.last().utc <= u {
            1nat
        } else {
            0nat
        }
    }
}

/// `u` lies in segment `k`: after the first `k` transitions, before the rest.
pub open spec fn in_segment(ts: Seq<Transition>, u: int, k: int) -> bool {
    &&& 0 <= k <= ts.len()
    &&& (k == 0 || ts[k - 1].utc <= u)
    &&& (k == ts.len() || u < ts[k].utc)
}

proof fn lemma_count_in_segment(ts: Seq<Transition>, u: int)
    requires
        strictly_increasing(ts),
    ensures
        in_segment(ts, u, count_at_or_before(ts, u) as int),
    decreases ts.len(),
{
    if ts.len() > 0 {
        let p = ts.drop_last();
        assert(strictly_increasing(p)) by {
            assert forall|i: int, j: int| 0 <= i < j < p.len() implies #[trigger] p[i].utc
                < #[trigger] p[j].utc by {
                assert(p[i] == ts[i] && p[j] == ts[j]);
            }
        }
        lemma_count_in_segment(p, u);
        let c = count_at_or_before(p, u) as int;
        if ts.last().utc <= u {
            if c < p.len() {
                assert(p[c] == ts[c]);
                assert(ts[c].utc < ts[ts.len() - 1].utc);
            }
        } else {
            if c > 0 {
                assert(p[c - 1] == ts[c - 1]);
            }
            if c < p.len() {
                assert(p[c] == ts[c]);
            }
        }
    }
}

proof fn lemma_segment_unique(ts: Seq<Transition>, u: int, k1: int, k2: int)
    requires
        strictly_increasing(ts),
        in_segment(ts, u, k1),
        in_segment(ts, u, k2),
    ensures
        k1 == k2,
{
    if k1 < k2 {
        assert(ts[k1].utc <= ts[k2 - 1].utc);
    } else if k2 < k1 {
        assert(ts[k2].utc <= ts[k1 - 1].utc);
    }
}

/// A search of a sorted table agrees with a linear scan: the only segment
/// holding `u` is the one that counts the transitions at or before `u`.
pub proof fn lemma_search_agrees_with_scan(ts: Seq<Transition>, u: int, k: int)
    requires
        strictly_increasing(ts),
        in_segment(ts, u, k),
    ensures
        k == count_at_or_before(ts, u),
{
    lemma_count_in_segment(ts, u);
    lemma_segment_unique(ts, u, k, count_at_or_before(ts, u) as int);
}

/// The offset history of one zone: the offset in force before the first
/// transition, then the transitions in increasing order.
#[derive(Clone, Debug)]
pub struct RuleSet {
    pub initial: i32,
    pub transitions: Vec<Transition>,
}

impl RuleSet {
    pub open spec fn wf(&self) -> bool {
        let ts = self.transitions@;
        &&& strictly_increasing(ts)
        &&& ts.len() < usize::MAX
        &&& offset_in_range(self.initial as int)
        &&& ts.len() > 0 ==> ts[0].before == self.initial
        &&& forall|i: int|
            0 <= i < ts.len() ==> {
                &&& offset_in_range(#[trigger] ts[i].after as int)
                &&& offset_in_range(ts[i].before as int)
                &&& timestamp_in_range(ts[i].utc as int)
            }
        &&& forall|i: int| 0 <= i < ts.len() - 1 ==> #[trigger] ts[i].after == ts[i + 1].before
    }

    /// The offset in force in segment `k`.
    pub open spec fn seg_offset(&self, k: int) -> int {
        if k == 0 {
            self.initial as int
        } else {
            self.transitions@[k - 1].after as int
        }
    }

    /// The offset in force at UTC instant `u`.
    pub open spec fn offset_at(&self, u: int) -> int {
        self.seg_offset(count_at_or_before(self.transitions@, u) as int)
    }

    /// Local time `l` read with the offset of segment `k` names an instant of segment `k`.
    pub open spec fn valid_local(&self, l: int, k: int) -> bool {
        in_segment(self.transitions@, l - self.seg_offset(k), k)
    }

    /// `r` classifies local time `l`: no valid segment, exactly one, or the
    /// first two (earlier UTC instant first).
    pub open spec fn resolves_to(&self, l: int, r: LocalResult<FixedOffset>) -> bool {
        let n = self.transitions@.len() as int;
        match r {
            LocalResult::Nonexistent => forall|k: int| 0 <= k <= n ==> !#[trigger] self.valid_local(l, k),
            LocalResult::Single(o) => exists|k: int|
                {
                    &&& 0 <= k <= n
                    &&& #[trigger] self.valid_local(l, k)
                    &&& o.local_minus_utc == self.seg_offset(k)
                    &&& forall|j: int| 0 <= j <= n && j != k ==> !#[trigger] self.valid_local(l, j)
                },
            LocalResult::Ambiguous(a, b) => exists|i: int, j: int|
                {
                    &&& 0 <= i < j <= n
                    &&& #[trigger] self.valid_local(l, i)
                    &&& #[trigger] self.valid_local(l, j)
                    &&& a.local_minus_utc == self.seg_offset(i)
                    &&& b.local_minus_utc == self.seg_offset(j)
                    &&& forall|k: int| 0 <= k < j && k != i ==> !#[trigger] self.valid_local(l, k)
                },
        }
    }

    /// A zone with one offset for all time.
    pub fn fixed(offset: FixedOffset) -> (r: RuleSet)
        requires
            offset.wf(),
        ensures
            r.wf(),
            r.initial == offset.local_minus_utc,
            r.transitions@.len() == 0,
    {
        RuleSet { initial: offset.local_minus_utc, transitions: Vec::new() }
    }

    /// The segment holding UTC instant `u`, by binary search.
    pub fn find_segment(&self, u: i64) -> (k: usize)
        requires
            self.wf(),
        ensures
            k == count_at_or_before(self.transitions@, u as int),
            in_segment(self.transitions@, u as int, k as int),
    {
        let n = self.transitions.len();
        let mut lo: usize = 0;
        let mut hi: usize = n;
        while lo < hi
            invariant
                lo <= hi <= n == self.transitions@.len(),
                lo == 0 || self.transitions@[lo - 1].utc <= u,
                hi == n || u < self.transitions@[hi as int].utc,
            decreases hi - lo,
        {
            let mid = lo + (hi - lo) / 2;
            if self.transitions[mid].utc <= u {
                lo = mid + 1;
            } else {
                hi = mid;
            }
        }
        proof {
            lemma_search_agrees_with_scan(self.transitions@, u as int, lo as int);
        }
        lo
    }

    /// The offset in force at UTC instant `u`; never ambiguous.
    pub fn offset_at_instant(&self, u: i64) -> (r: FixedOffset)
        requires
            self.wf(),
        ensures
            r.wf(),
            r.local_minus_utc == self.offset_at(u as int),
    {
        let k = self.find_segment(u);
        if k > 0 {
            assert(offset_in_range(self.transitions@[k - 1].after as int));
        }
        if k == 0 {
            FixedOffset { local_minus_utc: self.initial }
        } else {
            FixedOffset { local_minus_utc: self.transitions[k - 1].after }
        }
    }

    /// Classifies local time `l`, given in seconds since the epoch on the local clock.
    pub fn resolve_local(&self, l: i64) -> (r: LocalResult<FixedOffset>)
        requires
            self.wf(),
            timestamp_in_range(l as int),
        ensures
            self.resolves_to(l as int, r),
            r matches LocalResult::Single(o) ==> o.wf(),
            r matches LocalResult::Ambiguous(a, b) ==> a.wf() && b.wf(),
    {
        let n = self.transitions.len();
        let mut idx: usize = 0;
        let mut found: usize = 0;
        let mut first: i32 = 0;
        let mut second: i32 = 0;
        let ghost mut fi: int = 0;
        let ghost mut si: int = 0;
        while idx <= n && found < 2
            invariant
                self.wf(),
                timestamp_in_range(l as int),
                n == self.transitions@.len(),
                idx <= n + 1,
                found <= 2,
                found == 0 ==> forall|k: int| 0 <= k < idx ==> !#[trigger] self.valid_local(l as int, k),
                found >= 1 ==> {
                    &&& 0 <= fi < idx
                    &&& self.valid_local(l as int, fi)
                    &&& first == self.seg_offset(fi)
                    &&& offset_in_range(first as int)
                },
                found == 1 ==> forall|k: int| 0 <= k < idx && k != fi ==> !#[trigger] self.valid_local(l as int, k),
                found == 2 ==> {
                    &&& fi < si < idx
                    &&& self.valid_local(l as int, si)
                    &&& second == self.seg_offset(si)
                    &&& offset_in_range(second as int)
                    &&& forall|k: int| 0 <= k < si && k != fi ==> !#[trigger] self.valid_local(l as int, k)
                },
            decreases n + 1 - idx,
        {
            let off: i32 = if idx == 0 {
                self.initial
            } else {
                self.transitions[idx - 1].after
            };
            assert(offset_in_range(off as int)) by {
                if idx > 0 {
                    assert(offset_in_range(self.transitions@[idx - 1].after as int));
                }
            }
            let u: i64 = l - off as i64;
            let valid = (idx == 0 || self.transitions[idx - 1].utc <= u) && (idx == n || u
                < self.transitions[idx].utc);
            assert(valid == self.valid_local(l as int, idx as int));
            if valid {
                if found == 0 {
                    first = off;
                    proof {
                        fi = idx as int;
                    }
                } else {
                    second = off;
                    proof {
                        si = idx as int;
                    }
                }
                found = found + 1;
            }
            idx = idx + 1;
        }
        if found == 0 {
            LocalResult::Nonexistent
        } else if found == 1 {
            let r = LocalResult::Single(FixedOffset { local_minus_utc: first });
            assert(self.valid_local(l as int, fi));
            r
        } else {
            let r = LocalResult::Ambiguous(
                FixedOffset { local_minus_utc: first },
                FixedOffset { local_minus_utc: second },
            );
            assert(self.valid_local(l as int, fi) && self.valid_local(l as int, si));
            r
        }
    }
}

/// `r` holds offset `o` among its answers.
pub open spec fn holds_offset(r: LocalResult<FixedOffset>, o: int) -> bool {
    match r {
        LocalResult::Single(a) => a.local_minus_utc == o,
        LocalResult::Ambiguous(a, b) => a.local_minus_utc == o || b.local_minus_utc == o,
        LocalResult::Nonexistent => false,
    }
}

proof fn lemma_seg_offset_in_range(rs: RuleSet, k: int)
    requires
        rs.wf(),
        0 <= k <= rs.transitions@.len(),
    ensures
        offset_in_range(rs.seg_offset(k)),
{
    if k > 0 {
        assert(offset_in_range(rs.transitions@[k - 1].after as int));
    }
}

/// Reading a UTC instant `u` on the local clock and resolving that reading
/// back gives answers among which is the offset in force at `u`, so that the
/// candidate instants hold `u`. Transitions are taken two days apart at least.
pub proof fn lemma_utc_round_trip(rs: RuleSet, u: int, r: LocalResult<FixedOffset>)
    requires
        rs.wf(),
        spaced(rs.transitions@),
        rs.resolves_to(u + rs.offset_at(u), r),
    ensures
        holds_offset(r, rs.offset_at(u)),
{
    let ts = rs.transitions@;
    let n = ts.len() as int;
    let c = count_at_or_before(ts, u) as int;
    let l = u + rs.offset_at(u);
    lemma_count_in_segment(ts, u);
    assert(rs.valid_local(l, c));
    match r {
        LocalResult::Nonexistent => {},
        LocalResult::Single(o) => {
            let k = choose|k: int|
                {
                    &&& 0 <= k <= n
                    &&& #[trigger] rs.valid_local(l, k)
                    &&& o.local_minus_utc == rs.seg_offset(k)
                    &&& forall|j: int| 0 <= j <= n && j != k ==> !#[trigger] rs.valid_local(l, j)
                };
            assert(c == k);
        },
        LocalResult::Ambiguous(a, b) => {
            let (i, j) = choose|i: int, j: int|
                {
                    &&& 0 <= i < j <= n
                    &&& #[trigger] rs.valid_local(l, i)
                    &&& #[trigger] rs.valid_local(l, j)
                    &&& a.local_minus_utc == rs.seg_offset(i)
                    &&& b.local_minus_utc == rs.seg_offset(j)
                    &&& forall|k: int| 0 <= k < j && k != i ==> !#[trigger] rs.valid_local(l, k)
                };
            if c != i && c != j {
                assert(c > j);
                lemma_seg_offset_in_range(rs, i);
                lemma_seg_offset_in_range(rs, c);
                assert(ts[i + 1].utc - ts[i].utc >= 172_800);
                if i + 1 < c - 1 {
                    assert(ts[i + 1].utc < ts[c - 1].utc);
                }
                assert(false);
            }
        },
    }
}

/// A local reading has one classification: two results that both classify
/// it are equal.
pub proof fn lemma_resolution_unique(
    rs: RuleSet,
    l: int,
    r1: LocalResult<FixedOffset>,
    r2: LocalResult<FixedOffset>,
)
    requires
        rs.resolves_to(l, r1),
        rs.resolves_to(l, r2),
    ensures
        r1 == r2,
{
    let n = rs.transitions@.len() as int;
    match r1 {
        LocalResult::Nonexistent => {
            match r2 {
                LocalResult::Nonexistent => {},
                LocalResult::Single(_) => {},
                LocalResult::Ambiguous(_, _) => {},
            }
        },
        LocalResult::Single(o1) => {
            let k = choose|k: int|
                {
                    &&& 0 <= k <= n
                    &&& #[trigger] rs.valid_local(l, k)
                    &&& o1.local_minus_utc == rs.seg_offset(k)
                    &&& forall|j: int| 0 <= j <= n && j != k ==> !#[trigger] rs.valid_local(l, j)
                };
            match r2 {
                LocalResult::Nonexistent => {},
                LocalResult::Single(o2) => {
                    let k2 = choose|k: int|
                        {
                            &&& 0 <= k <= n
                            &&& #[trigger] rs.valid_local(l, k)
                            &&& o2.local_minus_utc == rs.seg_offset(k)
                            &&& forall|j: int|
                                0 <= j <= n && j != k ==> !#[trigger] rs.valid_local(l, j)
                        };
                    assert(k == k2);
                },
                LocalResult::Ambiguous(a, b) => {
                    let (i, j) = choose|i: int, j: int|
                        {
                            &&& 0 <= i < j <= n
                            &&& #[trigger] rs.valid_local(l, i)
                            &&& #[trigger] rs.valid_local(l, j)
                            &&& a.local_minus_utc == rs.seg_offset(i)
                            &&& b.local_minus_utc == rs.seg_offset(j)
                            &&& forall|k: int|
                                0 <= k < j && k != i ==> !#[trigger] rs.valid_local(l, k)
                        };
                    assert(i == k && j == k);
                },
            }
        },
        LocalResult::Ambiguous(a, b) => {
            let (i, j) = choose|i: int, j: int|
                {
                    &&& 0 <= i < j <= n
                    &&& #[trigger] rs.valid_local(l, i)
                    &&& #[trigger] rs.valid_local(l, j)
                    &&& a.local_minus_utc == rs.seg_offset(i)
                    &&& b.local_minus_utc == rs.seg_offset(j)
                    &&& forall|k: int| 0 <= k < j && k != i ==> !#[trigger] rs.valid_local(l, k)
                };
            match r2 {
                LocalResult::Nonexistent => {
                    assert(rs.valid_local(l, i));
                },
                LocalResult::Single(o2) => {
                    let k = choose|k: int|
                        {
                            &&& 0 <= k <= n
                            &&& #[trigger] rs.valid_local(l, k)
                            &&& o2.local_minus_utc == rs.seg_offset(k)
                            &&& forall|j: int|
                                0 <= j <= n && j != k ==> !#[trigger] rs.valid_local(l, j)
                        };
                    assert(i == k && j == k);
                },
                LocalResult::Ambiguous(a2, b2) => {
                    let (i2, j2) = choose|i: int, j: int|
                        {
                            &&& 0 <= i < j <= n
                            &&& #[trigger] rs.valid_local(l, i)
                            &&& #[trigger] rs.valid_local(l, j)
                            &&& a2.local_minus_utc == rs.seg_offset(i)
                            &&& b2.local_minus_utc == rs.seg_offset(j)
                            &&& forall|k: int|
                                0 <= k < j && k != i ==> !#[trigger] rs.valid_local(l, k)
                        };
                    if j < j2 {
                        assert(i == i2 && j == i2);
                    }
                    if j2 < j {
                        assert(i2 == i && j2 == i);
                    }
                    assert(j == j2);
                    assert(i == i2);
                },
            }
        },
    }
}

/// With transitions two days apart, a segment other than `k` and `k + 1` is
/// not valid for a local reading within a day of transition `k`.
proof fn lemma_far_segments_invalid(rs: RuleSet, k: int, l: int, j: int)
    requires
        rs.wf(),
        spaced(rs.transitions@),
        0 <= k < rs.transitions@.len(),
        rs.transitions@[k].utc - 86_400 < l < rs.transitions@[k].utc + 86_400,
        0 <= j <= rs.transitions@.len(),
        j != k && j != k + 1,
    ensures
        !rs.valid_local(l, j),
{
    let ts = rs.transitions@;
    lemma_seg_offset_in_range(rs, j);
    if j < k {
        assert(ts[(k - 1) + 1].utc - ts[k - 1].utc >= 172_800);
        if j < k - 1 {
            assert(ts[j].utc < ts[k - 1].utc);
        }
    } else {
        assert(ts[k + 1].utc - ts[k].utc >= 172_800);
        if j - 1 > k + 1 {
            assert(ts[k + 1].utc < ts[j - 1].utc);
        }
    }
}

/// A local reading near transition `k`, from `before` to `after`, classifies
/// by the transition's shape alone, whether it was tabulated or added from a
/// recurring rule: in the skipped window when the clock moves forward it names
/// no instant, and in the repeated window when it moves back it names two,
/// read with `before` first. Transitions are taken two days apart at least.
pub proof fn lemma_transition_window(rs: RuleSet, k: int, l: int, r: LocalResult<FixedOffset>)
    requires
        rs.wf(),
        spaced(rs.transitions@),
        0 <= k < rs.transitions@.len(),
        rs.resolves_to(l, r),
    ensures
        ({
            let t = rs.transitions@[k];
            t.after > t.before && t.utc + t.before <= l < t.utc + t.after ==> r is Nonexistent
        }),
        ({
            let t = rs.transitions@[k];
            t.after < t.before && t.utc + t.after <= l < t.utc + t.before ==> r == LocalResult::<
                FixedOffset,
            >::Ambiguous(
                FixedOffset { local_minus_utc: t.before },
                FixedOffset { local_minus_utc: t.after },
            )
        }),
{
    let ts = rs.transitions@;
    let n = ts.len() as int;
    let t = ts[k];
    assert(offset_in_range(t.before as int) && offset_in_range(t.after as int));
    assert(rs.seg_offset(k) == t.before as int) by {
        if k > 0 {
            assert(ts[k - 1].after == ts[k].before);
        }
    }
    assert(rs.seg_offset(k + 1) == t.after as int);
    if t.after > t.before && t.utc + t.before <= l < t.utc + t.after {
        assert forall|j: int| 0 <= j <= n implies !#[trigger] rs.valid_local(l, j) by {
            if j != k && j != k + 1 {
                lemma_far_segments_invalid(rs, k, l, j);
            }
        }
        match r {
            LocalResult::Nonexistent => {},
            LocalResult::Single(_) => {},
            LocalResult::Ambiguous(_, _) => {},
        }
    }
    if t.after < t.before && t.utc + t.after <= l < t.utc + t.before {
        let a = LocalResult::Ambiguous(
            FixedOffset { local_minus_utc: t.before },
            FixedOffset { local_minus_utc: t.after },
        );
        if k > 0 {
            assert(ts[(k - 1) + 1].utc - ts[k - 1].utc >= 172_800);
        }
        if k + 1 < n {
            assert(ts[k + 1].utc - ts[k].utc >= 172_800);
        }
        assert(rs.valid_local(l, k));
        assert(rs.valid_local(l, k + 1));
        assert forall|j: int| 0 <= j < k + 1 && j != k implies !#[trigger] rs.valid_local(l, j) by {
            lemma_far_segments_invalid(rs, k, l, j);
        }
        assert(rs.resolves_to(l, a));
        lemma_resolution_unique(rs, l, r, a);
    }
}

} // verus!
