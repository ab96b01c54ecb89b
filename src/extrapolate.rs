use vstd::prelude::*;

use crate::error::Error;
use crate::offset::offset_in_range;
use crate::rules::{strictly_increasing, timestamp_in_range, RuleSet, Transition};

verus! {

/// Years that a recurring rule is evaluated for.
pub open spec fn year_in_range(y: int) -> bool {
    1 <= y <= 100_000
}

/// Days from 1970-01-01 to year `y`, month `m`, day `d` of the proleptic
/// Gregorian calendar, counting years from March.
#[verifier::opaque]
pub open spec fn days_from_civil(y: int, m: int, d: int) -> int {
    let yy = if m <= 2 { y - 1 } else { y };
    let era = yy / 400;
    let yoe = yy - era * 400;
    let mp = (m + 9) % 12;
    let doy = (153 * mp + 2) / 5 + d - 1;
    let doe = yoe * 365 + yoe / 4 - yoe / 100 + doy;
    era * 146_097 + doe - 719_468
}

pub open spec fn is_leap(y: int) -> bool {
    y % 4 == 0 && (y % 100 != 0 || y % 400 == 0)
}

/// Day of the week of day number `days` since the epoch, Sunday as 0.
pub open spec fn weekday_of(days: int) -> int {
    (days + 4) % 7
}

/// The day of a year on which a recurring change happens.
#[derive(Copy, Clone, Debug, PartialEq, Eq, Structural)]
pub enum RuleDay {
    /// Day `n` of the year, 1 to 365, never counting February 29.
    Julian1(u16),
    /// Day `n` of the year, 0 to 365, counting February 29.
    Julian0(u16),
    /// Weekday `weekday` (0 is Sunday) of week `week` (1 to 5, 5 is the last)
    /// of month `month`.
    MonthWeekDay { month: u8, week: u8, weekday: u8 },
}

impl RuleDay {
    pub open spec fn wf(self) -> bool {
        match self {
            RuleDay::Julian1(n) => 1 <= n <= 365,
            RuleDay::Julian0(n) => n <= 365,
            RuleDay::MonthWeekDay { month, week, weekday } => 1 <= month <= 12 && 1 <= week <= 5
                && weekday <= 6,
        }
    }

    /// The day number, since the epoch, that this names in year `y`.
    pub open spec fn day_in(self, y: int) -> int {
        match self {
            RuleDay::Julian1(n) => days_from_civil(y, 1, 1) + n - 1 + if is_leap(y) && n >= 60 {
                1int
            } else {
                0int
            },
            RuleDay::Julian0(n) => days_from_civil(y, 1, 1) + n,
            RuleDay::MonthWeekDay { month, week, weekday } => {
                let first = days_from_civil(y, month as int, 1);
                let next = if month == 12 {
                    days_from_civil(y + 1, 1, 1)
                } else {
                    days_from_civil(y, month + 1, 1)
                };
                let day = first + (weekday - weekday_of(first) + 7) % 7 + (week - 1) * 7;
                if day >= next {
                    day - 7
                } else {
                    day
                }
            },
        }
    }
}

/// The daylight-saving part of a recurring rule: the offset while it is in
/// force, and when it starts and ends, as a day and a local time in seconds.
#[derive(Copy, Clone, Debug, PartialEq, Eq, Structural)]
pub struct DstRule {
    pub dst_offset: i32,
    pub start: RuleDay,
    pub start_time: i32,
    pub end: RuleDay,
    pub end_time: i32,
}

/// The recurring rule that continues a zone past its last tabulated
/// transition: a standard offset and, possibly, an annual daylight-saving period.
#[derive(Copy, Clone, Debug, PartialEq, Eq, Structural)]
pub struct ExtrapolationRule {
    pub std_offset: i32,
    pub dst: Option<DstRule>,
}

/// A rule time may reach a week either side of midnight.
pub open spec fn rule_time_in_range(t: int) -> bool {
    -604_800 <= t <= 604_800
}

impl ExtrapolationRule {
    pub open spec fn wf(self) -> bool {
        &&& offset_in_range(self.std_offset as int)
        &&& self.dst matches Some(d) ==> {
            &&& offset_in_range(d.dst_offset as int)
            &&& d.start.wf()
            &&& d.end.wf()
            &&& rule_time_in_range(d.start_time as int)
            &&& rule_time_in_range(d.end_time as int)
        }
    }

    /// The UTC instant at which daylight saving starts in year `y`.
    pub open spec fn dst_start(self, d: DstRule, y: int) -> int {
        d.start.day_in(y) * 86_400 + d.start_time - self.std_offset
    }

    /// The UTC instant at which daylight saving ends in year `y`.
    pub open spec fn dst_end(self, d: DstRule, y: int) -> int {
        d.end.day_in(y) * 86_400 + d.end_time - d.dst_offset
    }
}

fn civil_days(y: i64, m: i64, d: i64) -> (r: i64)
    requires
        1 <= y <= 100_001,
        1 <= m <= 12,
        1 <= d <= 31,
    ensures
        r == days_from_civil(y as int, m as int, d as int),
        -720_000 <= r <= 36_000_000,
{
    reveal(days_from_civil);
    let yy: i64 = if m <= 2 {
        y - 1
    } else {
        y
    };
    let era: i64 = yy / 400;
    assert(0 <= era <= 251 && 0 <= yy - era * 400 < 400) by (nonlinear_arith)
        requires
            era == yy / 400,
            0 <= yy <= 100_001,
    ;
    let yoe: i64 = yy - era * 400;
    let mp: i64 = (m + 9) % 12;
    assert(0 <= mp < 12);
    let doy: i64 = (153 * mp + 2) / 5 + d - 1;
    assert(0 <= doy <= 400) by (nonlinear_arith)
        requires
            doy == (153 * mp + 2) / 5 + d - 1,
            0 <= mp < 12,
            1 <= d <= 31,
    ;
    let doe: i64 = yoe * 365 + yoe / 4 - yoe / 100 + doy;
    assert(0 <= doe <= 146_500) by (nonlinear_arith)
        requires
            doe == yoe * 365 + yoe / 4 - yoe / 100 + doy,
            0 <= yoe < 400,
            0 <= doy <= 400,
    ;
    era * 146_097 + doe - 719_468
}

fn leap_year(y: i64) -> (r: bool)
    requires
        1 <= y,
    ensures
        r == is_leap(y as int),
{
    y % 4 == 0 && (y % 100 != 0 || y % 400 == 0)
}

fn day_in_year(rd: RuleDay, y: i64) -> (r: i64)
    requires
        rd.wf(),
        year_in_range(y as int),
    ensures
        r == rd.day_in(y as int),
        -720_100 <= r <= 36_100_000,
{
    match rd {
        RuleDay::Julian1(n) => {
            let extra: i64 = if leap_year(y) && n >= 60 {
                1
            } else {
                0
            };
            civil_days(y, 1, 1) + n as i64 - 1 + extra
        },
        RuleDay::Julian0(n) => civil_days(y, 1, 1) + n as i64,
        RuleDay::MonthWeekDay { month, week, weekday } => {
            let first = civil_days(y, month as i64, 1);
            let next = if month == 12 {
                civil_days(y + 1, 1, 1)
            } else {
                civil_days(y, month as i64 + 1, 1)
            };
            let wd: i64 = (first + 4 + 800_002) % 7;
            assert(wd == weekday_of(first as int)) by (nonlinear_arith)
                requires
                    wd == (first + 4 + 800_002) % 7,
                    first >= -800_000,
            ;
            let day = first + (weekday as i64 - wd + 7) % 7 + (week as i64 - 1) * 7;
            if day >= next {
                day - 7
            } else {
                day
            }
        },
    }
}

impl ExtrapolationRule {
    /// The UTC instants at which daylight saving starts and ends in year `y`.
    pub fn dst_instants(&self, d: &DstRule, y: i64) -> (r: (i64, i64))
        requires
            self.wf(),
            self.dst == Some(*d),
            year_in_range(y as int),
        ensures
            r.0 == self.dst_start(*d, y as int),
            r.1 == self.dst_end(*d, y as int),
            -70_000_000_000 <= r.0 <= 3_200_000_000_000,
            -70_000_000_000 <= r.1 <= 3_200_000_000_000,
    {
        let s = day_in_year(d.start, y) * 86_400 + d.start_time as i64 - self.std_offset as i64;
        let e = day_in_year(d.end, y) * 86_400 + d.end_time as i64 - d.dst_offset as i64;
        (s, e)
    }
}

/// `t` is a change that `rule` makes in one of the years `from` to `to`:
/// into daylight saving at its start, back to standard time at its end.
pub open spec fn rule_change(rule: ExtrapolationRule, t: Transition, from: int, to: int) -> bool {
    exists|y: int|
        from <= y <= to && #[trigger] year_in_range(y) && match rule.dst {
            Some(d) => (t.utc == rule.dst_start(d, y) && t.after == d.dst_offset) || (t.utc
                == rule.dst_end(d, y) && t.after == rule.std_offset),
            None => false,
        }
}

/// `t` comes after every transition of the table `ts`.
pub open spec fn after_table(ts: Seq<Transition>, t: int) -> bool {
    ts.len() == 0 || ts.last().utc < t
}

/// Some entry of `v` from index `lo` on changes to `off` at `t`.
pub open spec fn holds_change(v: Seq<Transition>, lo: int, t: int, off: int) -> bool {
    exists|k: int| lo <= k < v.len() && #[trigger] v[k].utc == t && v[k].after == off
}

/// The earlier of the two changes of year `y`.
pub open spec fn year_low(rule: ExtrapolationRule, d: DstRule, y: int) -> int {
    if rule.dst_start(d, y) <= rule.dst_end(d, y) {
        rule.dst_start(d, y)
    } else {
        rule.dst_end(d, y)
    }
}

/// The later of the two changes of year `y`.
pub open spec fn year_high(rule: ExtrapolationRule, d: DstRule, y: int) -> int {
    if rule.dst_start(d, y) <= rule.dst_end(d, y) {
        rule.dst_end(d, y)
    } else {
        rule.dst_start(d, y)
    }
}

/// The rule's changes in the years `from` to `to`, taken year by year, are
/// strictly increasing: the two of a year differ, and each year's come before
/// the next year's.
pub open spec fn changes_ordered(rule: ExtrapolationRule, from: int, to: int) -> bool {
    rule.dst matches Some(d) ==> forall|y: int|
        from <= y <= to ==> #[trigger] rule.dst_start(d, y) != rule.dst_end(d, y) && (y < to
            ==> year_high(rule, d, y) < year_low(rule, d, y + 1))
}

/// Every change that `rule` makes in the years `from` to `to` after the end of
/// table `ts` stands in `v` from index `lo` on.
pub open spec fn changes_present(
    rule: ExtrapolationRule,
    ts: Seq<Transition>,
    v: Seq<Transition>,
    lo: int,
    from: int,
    to: int,
) -> bool {
    rule.dst matches Some(d) ==> forall|y: int|
        from <= y <= to ==> {
            &&& after_table(ts, #[trigger] rule.dst_start(d, y)) ==> holds_change(
                v,
                lo,
                rule.dst_start(d, y),
                d.dst_offset as int,
            )
            &&& after_table(ts, rule.dst_end(d, y)) ==> holds_change(
                v,
                lo,
                rule.dst_end(d, y),
                rule.std_offset as int,
            )
        }
}

/// `w` is `v`, or `v` with a change to `off` at `t` pushed; it stays `v` only
/// when `t` is not after the table `ts` that `v` still equals.
pub open spec fn appended(v: Seq<Transition>, w: Seq<Transition>, ts: Seq<Transition>, t: int, off: int) -> bool {
    ||| w.len() == v.len() + 1 && w.drop_last() == v && w.last().utc == t && w.last().after == off
    ||| w == v && v == ts && !after_table(ts, t)
}

/// The entries appended for one year keep every change already present, and
/// hold the year's own changes that come after the table.
proof fn lemma_year_step(
    rule: ExtrapolationRule,
    d: DstRule,
    ts: Seq<Transition>,
    v0: Seq<Transition>,
    v1: Seq<Transition>,
    v2: Seq<Transition>,
    base: int,
    from: int,
    to: int,
    y: int,
    t1: int,
    o1: int,
    t2: int,
    o2: int,
)
    requires
        rule.dst == Some(d),
        from <= y <= to,
        year_in_range(y),
        0 <= base <= v0.len(),
        ts.len() == base,
        changes_present(rule, ts, v0, base, from, y - 1),
        forall|k: int| base <= k < v0.len() ==> rule_change(rule, #[trigger] v0[k], from, to),
        appended(v0, v1, ts, t1, o1),
        appended(v1, v2, ts, t2, o2),
        (t1 == rule.dst_start(d, y) && o1 == d.dst_offset && t2 == rule.dst_end(d, y) && o2
            == rule.std_offset) || (t1 == rule.dst_end(d, y) && o1 == rule.std_offset && t2
            == rule.dst_start(d, y) && o2 == d.dst_offset),
    ensures
        changes_present(rule, ts, v2, base, from, y),
        forall|k: int| base <= k < v2.len() ==> rule_change(rule, #[trigger] v2[k], from, to),
{
    assert(v1.len() >= v0.len() && v2.len() >= v1.len());
    assert forall|k: int| 0 <= k < v0.len() implies v2[k] == v0[k] by {
        if v1.len() > v0.len() {
            assert(v1[k] == v1.drop_last()[k]);
        }
        if v2.len() > v1.len() {
            assert(v2[k] == v2.drop_last()[k]);
        }
    }
    assert(!after_table(ts, t1) || holds_change(v2, base, t1, o1)) by {
        if v1.len() > v0.len() {
            let k = v0.len() as int;
            if v2.len() > v1.len() {
                assert(v2[k] == v2.drop_last()[k]);
            }
            assert(v2[k].utc == t1 && v2[k].after == o1);
        }
    }
    assert(!after_table(ts, t2) || holds_change(v2, base, t2, o2)) by {
        if v2.len() > v1.len() {
            let k = v1.len() as int;
            assert(v2[k].utc == t2 && v2[k].after == o2);
        }
    }
    assert forall|y2: int| from <= y2 <= y implies {
        &&& after_table(ts, #[trigger] rule.dst_start(d, y2)) ==> holds_change(
            v2,
            base,
            rule.dst_start(d, y2),
            d.dst_offset as int,
        )
        &&& after_table(ts, rule.dst_end(d, y2)) ==> holds_change(
            v2,
            base,
            rule.dst_end(d, y2),
            rule.std_offset as int,
        )
    } by {
        if y2 < y {
            if after_table(ts, rule.dst_start(d, y2)) {
                let k = choose|k: int|
                    base <= k < v0.len() && #[trigger] v0[k].utc == rule.dst_start(d, y2)
                        && v0[k].after == d.dst_offset;
                assert(v2[k] == v0[k]);
            }
            if after_table(ts, rule.dst_end(d, y2)) {
                let k = choose|k: int|
                    base <= k < v0.len() && #[trigger] v0[k].utc == rule.dst_end(d, y2)
                        && v0[k].after == rule.std_offset;
                assert(v2[k] == v0[k]);
            }
        }
    }
    assert forall|k: int| base <= k < v2.len() implies rule_change(rule, #[trigger] v2[k], from, to) by {
        if k < v0.len() {
            assert(v2[k] == v0[k]);
        } else {
            assert(year_in_range(y));
            if k == v0.len() && v1.len() > v0.len() {
                if v2.len() > v1.len() {
                    assert(v2[k] == v2.drop_last()[k]);
                }
                assert(v2[k].utc == t1 && v2[k].after == o1);
            } else {
                assert(v2[k].utc == t2 && v2[k].after == o2);
            }
        }
    }
}

/// Each transition starts from the offset that the one before it ended on,
/// and the first from `init`.
pub open spec fn chained(v: Seq<Transition>, init: i32) -> bool {
    &&& forall|k: int| 0 <= k < v.len() - 1 ==> #[trigger] v[k].after == v[k + 1].before
    &&& v.len() > 0 ==> v[0].before == init
}

proof fn lemma_push_keeps_chain(v: Seq<Transition>, t: Transition, init: i32)
    requires
        chained(v, init),
        v.len() > 0 ==> t.before == v.last().after,
        v.len() == 0 ==> t.before == init,
    ensures
        chained(v.push(t), init),
{
    let w = v.push(t);
    assert forall|k: int| 0 <= k < w.len() - 1 implies #[trigger] w[k].after == w[k + 1].before by {
        if k + 1 < v.len() {
            assert(w[k] == v[k] && w[k + 1] == v[k + 1]);
        }
    }
}

/// Appends `t` when it comes after the tabulated history ending at `base`;
/// fails when it does not come after what was appended before it.
fn append_change(v: &mut Vec<Transition>, base_len: usize, cur: &mut i32, t: i64, off: i32) -> (r:
    Result<(), Error>)
    requires
        old(v)@.len() >= base_len,
        old(v)@.len() < usize::MAX,
        strictly_increasing(old(v)@),
        offset_in_range(*old(cur) as int),
        offset_in_range(off as int),
        timestamp_in_range(t as int),
        old(v)@.len() > 0 ==> *old(cur) == old(v)@.last().after,
    ensures
        r matches Err(e) ==> e == Error::InvalidTzData,
        r is Err <==> old(v)@.len() > base_len && t <= old(v)@.last().utc,
        r is Ok && final(v)@.len() == old(v)@.len() ==> old(v)@.len() == base_len && old(
            v,
        )@.len() > 0 && t <= old(v)@.last().utc,
        r is Ok ==> {
            &&& strictly_increasing(final(v)@)
            &&& final(v)@.len() > 0 ==> *final(cur) == final(v)@.last().after
            &&& offset_in_range(*final(cur) as int)
            &&& final(v)@.len() > 0
            &&& (final(v)@ == old(v)@ && *final(cur) == *old(cur)) || (final(v)@ == old(v)@.push(
                Transition { utc: t, before: *old(cur), after: off },
            ) && final(v)@.len() > base_len && *final(cur) == off)
        },
{
    let n = v.len();
    if n > 0 && t <= v[n - 1].utc {
        if n == base_len {
            return Ok(());
        }
        return Err(Error::InvalidTzData);
    }
    let ghost old_v = v@;
    v.push(Transition { utc: t, before: *cur, after: off });
    assert(strictly_increasing(v@)) by {
        assert forall|a: int, b: int| 0 <= a < b < v@.len() implies #[trigger] v@[a].utc
            < #[trigger] v@[b].utc by {
            if b == v@.len() - 1 && a < old_v.len() {
                assert(old_v[a].utc <= old_v.last().utc);
            }
        }
    }
    *cur = off;
    Ok(())
}

impl RuleSet {
    /// The table followed by the changes that `rule` makes in the years `from`
    /// to `to` after the table's last transition. Fails with `InvalidTzData`
    /// when those changes do not come in strictly increasing order.
    #[verifier::spinoff_prover]
    #[verifier::rlimit(100)]
    pub fn extended(&self, rule: &ExtrapolationRule, from: i64, to: i64) -> (r: Result<RuleSet, Error>)
        requires
            self.wf(),
            rule.wf(),
            year_in_range(from as int),
            year_in_range(to as int),
            self.transitions@.len() + 2 * (to - from + 1) < usize::MAX,
        ensures
            r matches Err(e) ==> e == Error::InvalidTzData,
            r matches Ok(rs) ==> {
                &&& rs.wf()
                &&& rs.initial == self.initial
                &&& self.transitions@.len() <= rs.transitions@.len()
                &&& rs.transitions@.subrange(0, self.transitions@.len() as int)
                    == self.transitions@
                &&& forall|k: int|
                    self.transitions@.len() <= k < rs.transitions@.len() ==> rule_change(
                        *rule,
                        #[trigger] rs.transitions@[k],
                        from as int,
                        to as int,
                    )
                &&& changes_present(
                    *rule,
                    self.transitions@,
                    rs.transitions@,
                    self.transitions@.len() as int,
                    from as int,
                    to as int,
                )
            },
            changes_ordered(*rule, from as int, to as int) ==> r is Ok,
    {
        let base_len = self.transitions.len();
        let mut v: Vec<Transition> = Vec::new();
        let mut i: usize = 0;
        while i < base_len
            invariant
                base_len == self.transitions@.len(),
                i <= base_len,
                v@ == self.transitions@.subrange(0, i as int),
            decreases base_len - i,
        {
            v.push(self.transitions[i]);
            i = i + 1;
        }
        assert(v@ == self.transitions@);
        assert(v@.subrange(0, base_len as int) == self.transitions@);
        let mut cur: i32 = if base_len == 0 {
            self.initial
        } else {
            self.transitions[base_len - 1].after
        };
        match rule.dst {
            None => {},
            Some(d) => {
                let mut y = from;
                while y <= to
                    invariant
                        self.wf(),
                        rule.wf(),
                        rule.dst == Some(d),
                        from <= y <= to + 1 || to < from,
                        year_in_range(from as int),
                        year_in_range(to as int),
                        base_len == self.transitions@.len(),
                        base_len <= v@.len(),
                        v@.len() <= base_len + 2 * (y - from),
                        base_len + 2 * (to - from + 1) < usize::MAX,
                        v@.subrange(0, base_len as int) == self.transitions@,
                        strictly_increasing(v@),
                        offset_in_range(cur as int),
                        forall|k: int|
                            0 <= k < v@.len() ==> {
                                &&& offset_in_range(#[trigger] v@[k].after as int)
                                &&& offset_in_range(v@[k].before as int)
                                &&& timestamp_in_range(v@[k].utc as int)
                            },
                        chained(v@, self.initial),
                        v@.len() == 0 ==> cur == self.initial,
                        v@.len() > 0 ==> cur == v@.last().after,
                        changes_present(*rule, self.transitions@, v@, base_len as int, from as int, y - 1),
                        changes_ordered(*rule, from as int, to as int) && v@.len() > base_len ==> y > from
                            && v@.last().utc <= year_high(*rule, d, y - 1),
                        forall|k: int|
                            base_len <= k < v@.len() ==> rule_change(
                                *rule,
                                #[trigger] v@[k],
                                from as int,
                                to as int,
                            ),
                    decreases to + 1 - y,
                {
                    let (s, e) = rule.dst_instants(&d, y);
                    let ghost before = v@;
                    let ghost yy = y as int;
                    let (t1, o1, t2, o2) = if s <= e {
                        (s, d.dst_offset, e, rule.std_offset)
                    } else {
                        (e, rule.std_offset, s, d.dst_offset)
                    };
                    assert(v@.len() < usize::MAX);
                    let ghost v0 = v@;
                    let ghost c0 = cur;
                    let ghost ordered = changes_ordered(*rule, from as int, to as int);
                    proof {
                        if ordered {
                            assert(rule.dst_start(d, yy) != rule.dst_end(d, yy));
                            if v@.len() > base_len {
                                assert(year_high(*rule, d, yy - 1) < year_low(*rule, d, yy)) by {
                                    assert(rule.dst_start(d, yy - 1) != rule.dst_end(d, yy - 1));
                                }
                            }
                        }
                    }
                    match append_change(&mut v, base_len, &mut cur, t1, o1) {
                        Ok(()) => {},
                        Err(e) => {
                            return Err(e);
                        },
                    }
                    proof {
                        if v@.len() != v0.len() {
                            lemma_push_keeps_chain(v0, Transition { utc: t1, before: c0, after: o1 }, self.initial);
                            assert(v@.drop_last() =~= v0);
                        } else {
                            assert(v0 =~= v0.subrange(0, base_len as int));
                            assert(v0 =~= self.transitions@);
                        }
                        assert(appended(v0, v@, self.transitions@, t1 as int, o1 as int));
                    }
                    assert(v@.len() < usize::MAX);
                    let ghost v1 = v@;
                    let ghost c1 = cur;
                    match append_change(&mut v, base_len, &mut cur, t2, o2) {
                        Ok(()) => {},
                        Err(e) => {
                            return Err(e);
                        },
                    }
                    proof {
                        if v@.len() != v1.len() {
                            lemma_push_keeps_chain(v1, Transition { utc: t2, before: c1, after: o2 }, self.initial);
                            assert(v@.drop_last() =~= v1);
                        } else {
                            assert(v1 =~= v1.subrange(0, base_len as int));
                            assert(v1 =~= self.transitions@);
                        }
                        assert(appended(v1, v@, self.transitions@, t2 as int, o2 as int));
                    }
                    proof {
                        lemma_year_step(*rule, d, self.transitions@, v0, v1, v@, base_len as int,
                            from as int, to as int, yy, t1 as int, o1 as int, t2 as int, o2 as int);
                    }
                    y = y + 1;
                }
            },
        }
        Ok(RuleSet { initial: self.initial, transitions: v })
    }
}

} // verus!
