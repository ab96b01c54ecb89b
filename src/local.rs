use vstd::prelude::*;

use crate::error::Error;
use crate::extrapolate::{changes_ordered, changes_present, rule_change, year_in_range, ExtrapolationRule};
use crate::offset::{FixedOffset, LocalResult};
use crate::rules::{lemma_resolution_unique, timestamp_in_range, RuleSet, MAX_TIMESTAMP};

verus! {

/// A wall-clock reading with no offset attached: seconds since 1970-01-01T00:00:00
/// on that clock.
#[derive(Copy, Clone, Debug, PartialEq, Eq, Structural)]
pub struct NaiveDateTime {
    pub secs: i64,
}

impl NaiveDateTime {
    /// The reading `secs` seconds after the epoch; `DateOutOfRange` outside the
    /// supported range.
    pub fn from_timestamp(secs: i64) -> (r: Result<NaiveDateTime, Error>)
        ensures
            timestamp_in_range(secs as int) <==> r is Ok,
            r matches Ok(t) ==> t.secs == secs,
            r matches Err(e) ==> e == Error::DateOutOfRange,
    {
        if -MAX_TIMESTAMP <= secs && secs <= MAX_TIMESTAMP {
            Ok(NaiveDateTime { secs })
        } else {
            Err(Error::DateOutOfRange)
        }
    }

    pub fn timestamp(&self) -> (r: i64)
        ensures
            r == self.secs,
    {
        self.secs
    }

    /// Moves the reading by `delta` seconds; `DateOutOfRange` when the result
    /// leaves the supported range.
    pub fn checked_add_seconds(&self, delta: i64) -> (r: Result<NaiveDateTime, Error>)
        requires
            timestamp_in_range(self.secs as int),
        ensures
            timestamp_in_range(self.secs + delta) <==> r is Ok,
            r matches Ok(t) ==> t.secs == self.secs + delta,
            r matches Err(e) ==> e == Error::DateOutOfRange,
    {
        if delta < -2 * MAX_TIMESTAMP || delta > 2 * MAX_TIMESTAMP {
            Err(Error::DateOutOfRange)
        } else {
            NaiveDateTime::from_timestamp(self.secs + delta)
        }
    }
}

/// An instant together with the offset that a local clock shows it with.
#[derive(Copy, Clone, Debug, PartialEq, Eq, Structural)]
pub struct DateTime {
    pub utc: NaiveDateTime,
    pub offset: FixedOffset,
}

impl DateTime {
    pub open spec fn wf(self) -> bool {
        &&& self.offset.wf()
        &&& timestamp_in_range(self.utc.secs as int)
    }

    pub fn naive_utc(&self) -> (r: NaiveDateTime)
        ensures
            r == self.utc,
    {
        self.utc
    }

    /// The reading of the local clock.
    pub fn naive_local(&self) -> (r: NaiveDateTime)
        requires
            self.wf(),
        ensures
            r.secs == self.utc.secs + self.offset.local_minus_utc,
    {
        NaiveDateTime { secs: self.utc.secs + self.offset.local_minus_utc as i64 }
    }

    /// The local day this date-time falls on.
    pub open spec fn date_spec(self) -> Date {
        Date { day_number: day_of(self.utc.secs + self.offset.local_minus_utc) as i64, offset: self.offset }
    }

    /// The local day this date-time falls on: whole days since 1970-01-01 on
    /// the local clock, rounding towards the past.
    pub fn date(&self) -> (r: Date)
        requires
            self.wf(),
        ensures
            r == self.date_spec(),
            r.day_number == day_of(self.utc.secs + self.offset.local_minus_utc),
    {
        let local = self.naive_local();
        Date { day_number: floor_div_day(local.secs), offset: self.offset }
    }

    pub fn offset(&self) -> (r: FixedOffset)
        ensures
            r == self.offset,
    {
        self.offset
    }
}

/// A calendar day on a local clock: whole days since 1970-01-01 on that clock.
#[derive(Copy, Clone, Debug, PartialEq, Eq, Structural)]
pub struct Date {
    pub day_number: i64,
    pub offset: FixedOffset,
}

/// The day that local reading `secs` falls on, counted from the epoch.
pub open spec fn day_of(secs: int) -> int {
    secs / 86_400
}

#[verifier::external_type_specification]
#[verifier::external_body]
pub struct ExSystemTime(std::time::SystemTime);

#[verifier::external_type_specification]
#[verifier::external_body]
pub struct ExSystemTimeError(std::time::SystemTimeError);

/// Relies on std::time::SystemTime::now for the clock's reading; nothing is
/// promised of its value.
pub assume_specification[ std::time::SystemTime::now ]() -> std::time::SystemTime;

/// Relies on std::time::SystemTime::duration_since for the time elapsed since
/// an earlier reading, an error when it is later; nothing is promised of the value.
pub assume_specification[ std::time::SystemTime::duration_since ](
    t: &std::time::SystemTime,
    earlier: std::time::SystemTime,
) -> Result<core::time::Duration, std::time::SystemTimeError>;

/// Relies on core::time::Duration::as_secs for the whole seconds of a
/// duration; nothing is promised of the value here.
pub assume_specification[ core::time::Duration::as_secs ](d: &core::time::Duration) -> u64;

/// Relies on std::time::UNIX_EPOCH: the reading of 1970-01-01T00:00:00Z.
#[verifier::external_body]
fn unix_epoch() -> (r: std::time::SystemTime) {
    std::time::UNIX_EPOCH
}

/// Whole seconds since the Unix epoch on the system clock; `None` when the
/// clock stands before the epoch.
fn system_clock_seconds() -> (r: Option<u64>) {
    match std::time::SystemTime::now().duration_since(unix_epoch()) {
        Ok(d) => Some(d.as_secs()),
        Err(_) => None,
    }
}

/// The local time zone, resolved through the rule set of the zone that the
/// process runs under.
#[derive(Clone, Debug)]
pub struct Local {
    pub rules: RuleSet,
}

impl Local {
    pub open spec fn wf(&self) -> bool {
        self.rules.wf()
    }

    pub fn new(rules: RuleSet) -> (r: Local)
        ensures
            r.rules == rules,
    {
        Local { rules }
    }

    /// A zone whose table `rules` is continued by the recurring `rule` through
    /// the years `from` to `to`, so that instants after the last tabulated
    /// transition are resolved as tabulated ones are: every change the rule
    /// makes in those years after the table's end is added. Fails with
    /// `InvalidParameter` for a span of more than ten thousand years and with
    /// `InvalidTzData` only when the rule's changes, year by year, are not
    /// strictly increasing.
    pub fn with_rule(rules: RuleSet, rule: &ExtrapolationRule, from: i64, to: i64) -> (r: Result<
        Local,
        Error,
    >)
        requires
            rules.wf(),
            rule.wf(),
            year_in_range(from as int),
            year_in_range(to as int),
        ensures
            r matches Err(e) ==> e == Error::InvalidParameter || e == Error::InvalidTzData,
            (to - from > 10_000) ==> r == Err::<Local, Error>(Error::InvalidParameter),
            r matches Ok(l) ==> {
                &&& l.wf()
                &&& l.rules.initial == rules.initial
                &&& rules.transitions@.len() <= l.rules.transitions@.len()
                &&& l.rules.transitions@.subrange(0, rules.transitions@.len() as int)
                    == rules.transitions@
                &&& forall|k: int|
                    rules.transitions@.len() <= k < l.rules.transitions@.len() ==> rule_change(
                        *rule,
                        #[trigger] l.rules.transitions@[k],
                        from as int,
                        to as int,
                    )
                &&& changes_present(
                    *rule,
                    rules.transitions@,
                    l.rules.transitions@,
                    rules.transitions@.len() as int,
                    from as int,
                    to as int,
                )
            },
            to - from <= 10_000 && rules.transitions@.len() < usize::MAX - 20_004
                && changes_ordered(*rule, from as int, to as int) ==> r is Ok,
    {
        if to - from > 10_000 || rules.transitions.len() >= usize::MAX - 20_004 {
            return Err(Error::InvalidParameter);
        }
        match rules.extended(rule, from, to) {
            Ok(rs) => Ok(Local { rules: rs }),
            Err(e) => Err(e),
        }
    }

    /// A zone that keeps `offset` for all time.
    pub fn from_offset(offset: &FixedOffset) -> (r: Local)
        requires
            offset.wf(),
        ensures
            r.wf(),
            r.rules.initial == offset.local_minus_utc,
            r.rules.transitions@.len() == 0,
    {
        Local { rules: RuleSet::fixed(*offset) }
    }

    /// The current instant, with the offset in force at it. Fails with
    /// `DateOutOfRange` when the clock reads outside the supported range.
    pub fn now(&self) -> (r: Result<DateTime, Error>)
        requires
            self.wf(),
        ensures
            r matches Ok(dt) ==> dt.wf() && dt.utc.secs >= 0 && dt.offset.local_minus_utc
                == self.rules.offset_at(dt.utc.secs as int),
            r matches Err(e) ==> e == Error::DateOutOfRange,
    {
        self.at_clock_reading(system_clock_seconds())
    }

    /// The date-time for a clock reading of `secs` whole seconds since the
    /// epoch, with the offset in force then. `DateOutOfRange` when there is no
    /// reading or it lies beyond the supported range.
    pub fn at_clock_reading(&self, secs: Option<u64>) -> (r: Result<DateTime, Error>)
        requires
            self.wf(),
        ensures
            reading_in_range(secs) ==> (r matches Ok(dt) && dt.wf() && dt.utc.secs
                == secs.unwrap() && dt.offset.local_minus_utc == self.rules.offset_at(
                secs.unwrap() as int,
            )),
            !reading_in_range(secs) ==> r == Err::<DateTime, Error>(Error::DateOutOfRange),
    {
        match secs {
            Some(s) => {
                if s <= MAX_TIMESTAMP as u64 {
                    Ok(self.from_utc_datetime(&NaiveDateTime { secs: s as i64 }))
                } else {
                    Err(Error::DateOutOfRange)
                }
            },
            None => Err(Error::DateOutOfRange),
        }
    }

    /// The current local day.
    pub fn today(&self) -> (r: Result<Date, Error>)
        requires
            self.wf(),
        ensures
            r matches Ok(d) ==> exists|dt: DateTime|
                {
                    &&& dt.wf()
                    &&& dt.offset.local_minus_utc == self.rules.offset_at(dt.utc.secs as int)
                    &&& d == dt.date_spec()
                },
            r matches Err(e) ==> e == Error::DateOutOfRange,
    {
        let dt = self.now()?;
        Ok(dt.date())
    }

    /// The instant `utc` with the offset in force at it; never ambiguous.
    pub fn from_utc_datetime(&self, utc: &NaiveDateTime) -> (r: DateTime)
        requires
            self.wf(),
            timestamp_in_range(utc.secs as int),
        ensures
            r.wf(),
            r.utc == *utc,
            r.offset.local_minus_utc == self.rules.offset_at(utc.secs as int),
    {
        let offset = self.rules.offset_at_instant(utc.secs);
        DateTime { utc: *utc, offset }
    }

    /// The offset in force at the instant `utc`.
    pub fn offset_from_utc_datetime(&self, utc: &NaiveDateTime) -> (r: FixedOffset)
        requires
            self.wf(),
            timestamp_in_range(utc.secs as int),
        ensures
            r.wf(),
            r.local_minus_utc == self.rules.offset_at(utc.secs as int),
    {
        self.from_utc_datetime(utc).offset()
    }

    /// Every instant that the local reading `local` can name: one, two
    /// (earlier first) or none. `DateOutOfRange` outside the supported range.
    pub fn from_local_datetime(&self, local: &NaiveDateTime) -> (r: Result<LocalResult<DateTime>, Error>)
        requires
            self.wf(),
        ensures
            timestamp_in_range(local.secs as int) <==> r is Ok,
            r matches Err(e) ==> e == Error::DateOutOfRange,
            r matches Ok(res) ==> exists|o: LocalResult<FixedOffset>|
                {
                    &&& self.rules.resolves_to(local.secs as int, o)
                    &&& #[trigger] local_instants(local.secs as int, o) == res
                },
    {
        if local.secs < -MAX_TIMESTAMP || local.secs > MAX_TIMESTAMP {
            return Err(Error::DateOutOfRange);
        }
        let o = self.rules.resolve_local(local.secs);
        let res = match o {
            LocalResult::Single(a) => LocalResult::Single(instant_of(local.secs, a)),
            LocalResult::Ambiguous(a, b) => LocalResult::Ambiguous(
                instant_of(local.secs, a),
                instant_of(local.secs, b),
            ),
            LocalResult::Nonexistent => LocalResult::Nonexistent,
        };
        assert(local_instants(local.secs as int, o) == res);
        Ok(res)
    }

    /// The one offset that the local reading `local` can be read with.
    /// `Inconsistent` when it names two instants or none, `DateOutOfRange`
    /// outside the supported range.
    pub fn offset_from_local_datetime(&self, local: &NaiveDateTime) -> (r: Result<FixedOffset, Error>)
        requires
            self.wf(),
        ensures
            !timestamp_in_range(local.secs as int) ==> r == Err::<FixedOffset, Error>(
                Error::DateOutOfRange,
            ),
            timestamp_in_range(local.secs as int) ==> {
                &&& r matches Ok(o) ==> self.rules.resolves_to(
                    local.secs as int,
                    LocalResult::Single(o),
                )
                &&& r matches Err(e) ==> e == Error::Inconsistent && !exists|o: FixedOffset|
                    #[trigger] self.rules.resolves_to(local.secs as int, LocalResult::Single(o))
            },
    {
        if local.secs < -MAX_TIMESTAMP || local.secs > MAX_TIMESTAMP {
            return Err(Error::DateOutOfRange);
        }
        let o = self.rules.resolve_local(local.secs);
        proof {
            let l = local.secs as int;
            assert forall|s: FixedOffset| #[trigger] self.rules.resolves_to(l, LocalResult::Single(s))
                implies o == LocalResult::Single(s) by {
                lemma_resolution_unique(self.rules, l, o, LocalResult::Single(s));
            }
        }
        o.single()
    }
}

/// A clock reading that the library can represent.
pub open spec fn reading_in_range(secs: Option<u64>) -> bool {
    secs is Some && secs.unwrap() <= 1_000_000_000_000_000
}

/// The date-time that local reading `l` names when read with offset `o`.
pub open spec fn instant_at(l: int, o: FixedOffset) -> DateTime {
    DateTime { utc: NaiveDateTime { secs: (l - o.local_minus_utc) as i64 }, offset: o }
}

/// The instants that local reading `l` names, for each offset of `o`.
pub open spec fn local_instants(l: int, o: LocalResult<FixedOffset>) -> LocalResult<DateTime> {
    match o {
        LocalResult::Single(a) => LocalResult::Single(instant_at(l, a)),
        LocalResult::Ambiguous(a, b) => LocalResult::Ambiguous(instant_at(l, a), instant_at(l, b)),
        LocalResult::Nonexistent => LocalResult::Nonexistent,
    }
}

fn instant_of(l: i64, o: FixedOffset) -> (r: DateTime)
    requires
        timestamp_in_range(l as int),
        o.wf(),
    ensures
        r == instant_at(l as int, o),
{
    DateTime { utc: NaiveDateTime { secs: l - o.local_minus_utc as i64 }, offset: o }
}

/// Whole days since the epoch, rounding towards the past.
fn floor_div_day(secs: i64) -> (r: i64)
    requires
        secs > -2_000_000_000_000_000,
    ensures
        r == day_of(secs as int),
{
    if secs >= 0 {
        secs / 86_400
    } else {
        let p: i64 = -secs + 86_399;
        let q: i64 = p / 86_400;
        proof {
            let s = secs as int;
            assert(-(q as int) == s / 86_400) by (nonlinear_arith)
                requires
                    q as int == (-s + 86_399) / 86_400,
                    s < 0,
            {
                let d = s / 86_400;
                let m = s % 86_400;
                assert(s == d * 86_400 + m && 0 <= m < 86_400);
                assert(-s + 86_399 == (-d) * 86_400 + (86_399 - m));
            }
        }
        -q
    }
}

} // verus!
