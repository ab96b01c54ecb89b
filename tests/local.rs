use chrono::{parse_rule_string, parse_tzif, Error, FixedOffset, Local, LocalResult, NaiveDateTime, RuleSet, Transition};

fn days_from_civil(y: i64, m: i64, d: i64) -> i64 {
    let y = if m <= 2 { y - 1 } else { y };
    let era = if y >= 0 { y } else { y - 399 } / 400;
    let yoe = y - era * 400;
    let mp = (m + 9) % 12;
    let doy = (153 * mp + 2) / 5 + d - 1;
    let doe = yoe * 365 + yoe / 4 - yoe / 100 + doy;
    era * 146097 + doe - 719468
}

/// The last Sunday of a month, as days since the epoch.
fn last_sunday(y: i64, m: i64) -> i64 {
    let next = if m == 12 { days_from_civil(y + 1, 1, 1) } else { days_from_civil(y, m + 1, 1) };
    let last = next - 1;
    // 1970-01-01 was a Thursday.
    let weekday = (last + 4).rem_euclid(7);
    last - weekday
}

fn push_header(out: &mut Vec<u8>, version: u8, timecnt: u32, typecnt: u32, charcnt: u32) {
    out.extend_from_slice(b"TZif");
    out.push(version);
    out.extend_from_slice(&[0u8; 15]);
    for count in [0u32, 0, 0, timecnt, typecnt, charcnt] {
        out.extend_from_slice(&count.to_be_bytes());
    }
}

/// A version-2 file with Central European rules from 1980 to 2100.
fn central_european_tzif() -> Vec<u8> {
    let mut times: Vec<i64> = Vec::new();
    let mut idx: Vec<u8> = Vec::new();
    for y in 1980..2100 {
        times.push(last_sunday(y, 3) * 86_400 + 3_600);
        idx.push(1);
        times.push(last_sunday(y, 10) * 86_400 + 3_600);
        idx.push(0);
    }
    let mut out = Vec::new();
    push_header(&mut out, b'2', 0, 0, 0);
    push_header(&mut out, b'2', times.len() as u32, 2, 8);
    for t in &times {
        out.extend_from_slice(&t.to_be_bytes());
    }
    out.extend_from_slice(&idx);
    out.extend_from_slice(&3_600i32.to_be_bytes());
    out.extend_from_slice(&[0, 0]);
    out.extend_from_slice(&7_200i32.to_be_bytes());
    out.extend_from_slice(&[1, 4]);
    out.extend_from_slice(b"CET\0CEST");
    out.extend_from_slice(b"\nCET-1CEST,M3.5.0,M10.5.0/3\n");
    out
}

fn central_european() -> Local {
    Local::new(parse_tzif(&central_european_tzif()).unwrap())
}

const SPRING_2023: i64 = 1_679_792_400;
const AUTUMN_2023: i64 = 1_698_541_200;

fn rules_2023() -> RuleSet {
    RuleSet {
        initial: 3_600,
        transitions: vec![
            Transition { utc: SPRING_2023, before: 3_600, after: 7_200 },
            Transition { utc: AUTUMN_2023, before: 7_200, after: 3_600 },
        ],
    }
}

fn naive(secs: i64) -> NaiveDateTime {
    NaiveDateTime::from_timestamp(secs).unwrap()
}

fn offset(secs: i32) -> FixedOffset {
    FixedOffset::east(secs).unwrap()
}

#[test]
fn verify_correct_offsets() {
    let local = central_european();
    let now = local.now().unwrap();
    let from_local = local.from_local_datetime(&now.naive_local()).unwrap().single().unwrap();
    let from_utc = local.from_utc_datetime(&now.naive_utc());

    assert_eq!(now.offset().local_minus_utc(), from_local.offset().local_minus_utc());
    assert_eq!(now.offset().local_minus_utc(), from_utc.offset().local_minus_utc());

    assert_eq!(now, from_local);
    assert_eq!(now, from_utc);
}

#[test]
fn verify_correct_offsets_distant_past() {
    let local = central_european();
    let now = local.now().unwrap();
    let past = now.naive_utc().checked_add_seconds(-(250 * 31) * 86_400).unwrap();
    let distant_past = local.from_utc_datetime(&past);
    let from_local =
        local.from_local_datetime(&distant_past.naive_local()).unwrap().single().unwrap();
    let from_utc = local.from_utc_datetime(&distant_past.naive_utc());

    assert_eq!(distant_past.offset().local_minus_utc(), from_local.offset().local_minus_utc());
    assert_eq!(distant_past.offset().local_minus_utc(), from_utc.offset().local_minus_utc());

    assert_eq!(distant_past, from_local);
    assert_eq!(distant_past, from_utc);
}

#[test]
fn verify_correct_offsets_distant_future() {
    let local = central_european();
    let now = local.now().unwrap();
    let future = now.naive_utc().checked_add_seconds((250 * 31) * 86_400).unwrap();
    let distant_future = local.from_utc_datetime(&future);
    let from_local =
        local.from_local_datetime(&distant_future.naive_local()).unwrap().single().unwrap();
    let from_utc = local.from_utc_datetime(&distant_future.naive_utc());

    assert_eq!(
        distant_future.offset().local_minus_utc(),
        from_local.offset().local_minus_utc()
    );
    assert_eq!(distant_future.offset().local_minus_utc(), from_utc.offset().local_minus_utc());

    assert_eq!(distant_future, from_local);
    assert_eq!(distant_future, from_utc);
}

#[test]
fn spring_forward_gap_and_after() {
    let rules = rules_2023();
    // 2023-03-26T02:30:00 local falls in the gap.
    assert_eq!(rules.resolve_local(1_679_797_800), LocalResult::Nonexistent);
    // 2023-03-26T03:30:00 local is summer time.
    assert_eq!(rules.resolve_local(1_679_801_400), LocalResult::Single(offset(7_200)));
}

#[test]
fn fall_back_overlap_is_ambiguous_earlier_first() {
    let local = Local::new(rules_2023());
    // 2023-10-29T02:30:00 local.
    let res = local.from_local_datetime(&naive(1_698_546_600)).unwrap();
    match res {
        LocalResult::Ambiguous(a, b) => {
            assert_eq!(a.naive_utc().timestamp(), 1_698_539_400);
            assert_eq!(a.offset().local_minus_utc(), 7_200);
            assert_eq!(b.naive_utc().timestamp(), 1_698_543_000);
            assert_eq!(b.offset().local_minus_utc(), 3_600);
        }
        other => panic!("expected two candidates, got {:?}", other),
    }
}

#[test]
fn offset_from_local_refuses_to_pick() {
    let local = Local::new(rules_2023());
    assert_eq!(local.offset_from_local_datetime(&naive(1_698_546_600)), Err(Error::Inconsistent));
    assert_eq!(local.offset_from_local_datetime(&naive(1_679_797_800)), Err(Error::Inconsistent));
    assert_eq!(local.offset_from_local_datetime(&naive(1_679_801_400)), Ok(offset(7_200)));
    assert_eq!(local.offset_from_local_datetime(&naive(1_700_000_000)), Ok(offset(3_600)));
}

#[test]
fn local_out_of_range_is_an_error() {
    let local = Local::new(rules_2023());
    let far = NaiveDateTime { secs: i64::MAX };
    assert_eq!(local.from_local_datetime(&far), Err(Error::DateOutOfRange));
    assert_eq!(local.offset_from_local_datetime(&far), Err(Error::DateOutOfRange));
    assert_eq!(NaiveDateTime::from_timestamp(i64::MIN), Err(Error::DateOutOfRange));
}

#[test]
fn utc_lookup_at_and_around_each_boundary() {
    let rules = rules_2023();
    for t in &rules.transitions {
        let linear = |u: i64| {
            let mut o = rules.initial;
            for tr in &rules.transitions {
                if tr.utc <= u {
                    o = tr.after;
                }
            }
            o
        };
        for u in [t.utc - 1, t.utc, t.utc + 1] {
            assert_eq!(rules.find_segment(u), rules.transitions.iter().filter(|x| x.utc <= u).count());
            assert_eq!(rules.offset_at_instant(u).local_minus_utc(), linear(u));
        }
    }
    assert_eq!(rules.offset_at_instant(SPRING_2023 - 1).local_minus_utc(), 3_600);
    assert_eq!(rules.offset_at_instant(SPRING_2023).local_minus_utc(), 7_200);
    assert_eq!(rules.offset_at_instant(AUTUMN_2023).local_minus_utc(), 3_600);
}

#[test]
fn utc_round_trip_holds_the_instant() {
    let local = Local::new(rules_2023());
    for u in [SPRING_2023 - 1, SPRING_2023, AUTUMN_2023 - 1, AUTUMN_2023, AUTUMN_2023 + 1800] {
        let dt = local.from_utc_datetime(&naive(u));
        let back = local.from_local_datetime(&dt.naive_local()).unwrap();
        let found = match back {
            LocalResult::Single(a) => a == dt,
            LocalResult::Ambiguous(a, b) => a == dt || b == dt,
            LocalResult::Nonexistent => false,
        };
        assert!(found);
    }
}

#[test]
fn corrupted_magic_is_rejected() {
    let mut bytes = central_european_tzif();
    assert!(parse_tzif(&bytes).is_ok());
    bytes[0] = b'X';
    assert_eq!(parse_tzif(&bytes).unwrap_err(), Error::InvalidTzData);
    assert_eq!(parse_tzif(&[]).unwrap_err(), Error::InvalidTzData);
}

#[test]
fn truncated_or_unordered_data_is_rejected() {
    let bytes = central_european_tzif();
    assert_eq!(parse_tzif(&bytes[..bytes.len() - 60]).unwrap_err(), Error::InvalidTzData);

    let mut v1 = Vec::new();
    push_header(&mut v1, 0, 2, 1, 0);
    v1.extend_from_slice(&100i32.to_be_bytes());
    v1.extend_from_slice(&50i32.to_be_bytes());
    v1.extend_from_slice(&[0, 0]);
    v1.extend_from_slice(&0i32.to_be_bytes());
    v1.extend_from_slice(&[0, 0]);
    assert_eq!(parse_tzif(&v1).unwrap_err(), Error::InvalidTzData);

    let mut bad_index = Vec::new();
    push_header(&mut bad_index, 0, 1, 1, 0);
    bad_index.extend_from_slice(&100i32.to_be_bytes());
    bad_index.push(3);
    bad_index.extend_from_slice(&0i32.to_be_bytes());
    bad_index.extend_from_slice(&[0, 0]);
    assert_eq!(parse_tzif(&bad_index).unwrap_err(), Error::InvalidTzData);
}

#[test]
fn parsed_version_one_file() {
    let mut v1 = Vec::new();
    push_header(&mut v1, 0, 1, 2, 0);
    v1.extend_from_slice(&(SPRING_2023 as i32).to_be_bytes());
    v1.push(1);
    v1.extend_from_slice(&3_600i32.to_be_bytes());
    v1.extend_from_slice(&[0, 0]);
    v1.extend_from_slice(&7_200i32.to_be_bytes());
    v1.extend_from_slice(&[1, 0]);
    let rules = parse_tzif(&v1).unwrap();
    assert_eq!(rules.initial, 3_600);
    assert_eq!(rules.transitions, vec![Transition { utc: SPRING_2023, before: 3_600, after: 7_200 }]);
}

#[test]
fn fixed_offsets() {
    assert_eq!(FixedOffset::east(86_400), Err(Error::InvalidParameter));
    assert_eq!(FixedOffset::west(-86_400), Err(Error::InvalidParameter));
    assert_eq!(FixedOffset::west(3_600).unwrap().local_minus_utc(), -3_600);
    let local = Local::from_offset(&offset(-18_000));
    let dt = local.from_utc_datetime(&naive(0));
    assert_eq!(dt.naive_local().timestamp(), -18_000);
    assert_eq!(local.offset_from_utc_datetime(&naive(0)), offset(-18_000));
}

#[test]
fn single_and_bounds_of_results() {
    let one: LocalResult<i32> = LocalResult::Single(1);
    let two: LocalResult<i32> = LocalResult::Ambiguous(1, 2);
    let none: LocalResult<i32> = LocalResult::Nonexistent;
    assert_eq!(one.single(), Ok(1));
    assert_eq!(two.single(), Err(Error::Inconsistent));
    assert_eq!(none.single(), Err(Error::Inconsistent));
    assert_eq!(two.earliest(), Some(1));
    assert_eq!(two.latest(), Some(2));
    assert_eq!(none.earliest(), None);
}

#[test]
fn today_is_the_local_day_of_now() {
    let local = Local::from_offset(&offset(0));
    let day = local.today().unwrap();
    let now = local.now().unwrap();
    let d = now.naive_local().timestamp().div_euclid(86_400);
    assert!(day.day_number == d || day.day_number + 1 == d);
}

fn central_european_rule() -> chrono::ExtrapolationRule {
    chrono::ExtrapolationRule {
        std_offset: 3_600,
        dst: Some(chrono::DstRule {
            dst_offset: 7_200,
            start: chrono::RuleDay::MonthWeekDay { month: 3, week: 5, weekday: 0 },
            start_time: 7_200,
            end: chrono::RuleDay::MonthWeekDay { month: 10, week: 5, weekday: 0 },
            end_time: 10_800,
        }),
    }
}

#[test]
fn extrapolated_changes_classify_like_tabulated_ones() {
    let local = Local::with_rule(rules_2023(), &central_european_rule(), 2023, 2080).unwrap();
    // The tabulated 2023 changes are kept and not repeated.
    assert_eq!(local.rules.transitions[0].utc, SPRING_2023);
    assert_eq!(local.rules.transitions[1].utc, AUTUMN_2023);
    assert_eq!(local.rules.transitions[2].utc, last_sunday(2024, 3) * 86_400 + 3_600);

    // Fifty years on, in 2073: the same gap and overlap as in 2023.
    let spring = last_sunday(2073, 3) * 86_400;
    let autumn = last_sunday(2073, 10) * 86_400;
    let gap = local.from_local_datetime(&naive(spring + 9_000)).unwrap();
    assert_eq!(gap, LocalResult::Nonexistent);
    let after = local.offset_from_local_datetime(&naive(spring + 12_600)).unwrap();
    assert_eq!(after.local_minus_utc(), 7_200);
    match local.from_local_datetime(&naive(autumn + 9_000)).unwrap() {
        LocalResult::Ambiguous(a, b) => {
            assert_eq!(a.naive_utc().timestamp(), autumn + 1_800);
            assert_eq!(b.naive_utc().timestamp(), autumn + 5_400);
        }
        other => panic!("expected two candidates, got {:?}", other),
    }
    let summer = local.from_utc_datetime(&naive(last_sunday(2073, 7) * 86_400));
    assert_eq!(summer.offset().local_minus_utc(), 7_200);
}

#[test]
fn rule_days_of_each_kind() {
    let rule = chrono::ExtrapolationRule {
        std_offset: 0,
        dst: Some(chrono::DstRule {
            dst_offset: 3_600,
            start: chrono::RuleDay::Julian1(60),
            start_time: 0,
            end: chrono::RuleDay::Julian0(300),
            end_time: 0,
        }),
    };
    let d = rule.dst.unwrap();
    // Day 60 of the no-leap count is March 1, also in 2024.
    let (s, e) = rule.dst_instants(&d, 2024);
    assert_eq!(s, days_from_civil(2024, 3, 1) * 86_400);
    // Day 300 from zero, counting February 29, is October 27 in 2024.
    assert_eq!(e, days_from_civil(2024, 10, 27) * 86_400 - 3_600);
    // The first Sunday of September 2024 is the first.
    let first = chrono::ExtrapolationRule {
        std_offset: 0,
        dst: Some(chrono::DstRule {
            dst_offset: 3_600,
            start: chrono::RuleDay::MonthWeekDay { month: 9, week: 1, weekday: 0 },
            start_time: 0,
            end: chrono::RuleDay::MonthWeekDay { month: 2, week: 5, weekday: 4 },
            end_time: 0,
        }),
    };
    let (s, e) = first.dst_instants(&first.dst.unwrap(), 2024);
    assert_eq!(s, days_from_civil(2024, 9, 1) * 86_400);
    // The last Thursday of February 2024 is the 29th.
    assert_eq!(e, days_from_civil(2024, 2, 29) * 86_400 - 3_600);
}

#[test]
fn rule_span_too_long_is_refused() {
    let res = Local::with_rule(rules_2023(), &central_european_rule(), 1, 20_000);
    assert_eq!(res.unwrap_err(), Error::InvalidParameter);
}

#[test]
fn footer_rule_is_read() {
    let rule = chrono::parse_tzif_rule(&central_european_tzif()).unwrap().unwrap();
    assert_eq!(rule, central_european_rule());
    let mut v1 = Vec::new();
    push_header(&mut v1, 0, 0, 1, 0);
    v1.extend_from_slice(&0i32.to_be_bytes());
    v1.extend_from_slice(&[0, 0]);
    assert_eq!(chrono::parse_tzif_rule(&v1), Ok(None));
    let mut bytes = central_european_tzif();
    bytes.pop();
    assert_eq!(chrono::parse_tzif_rule(&bytes), Err(Error::InvalidTzData));
    bytes[0] = b'x';
    assert_eq!(chrono::parse_tzif_rule(&bytes), Err(Error::InvalidTzData));
}

#[test]
fn rule_strings() {
    let fixed = parse_rule_string(b"<+0330>-3:30").unwrap();
    assert_eq!(fixed.std_offset, 12_600);
    assert_eq!(fixed.dst, None);
    let ny = parse_rule_string(b"EST5EDT,M3.2.0,M11.1.0").unwrap();
    assert_eq!(ny.std_offset, -18_000);
    let d = ny.dst.unwrap();
    assert_eq!(d.dst_offset, -14_400);
    assert_eq!(d.start, chrono::RuleDay::MonthWeekDay { month: 3, week: 2, weekday: 0 });
    assert_eq!(d.start_time, 7_200);
    let j = parse_rule_string(b"XXX3YYY2,J60/-1,300/26:30:15").unwrap().dst.unwrap();
    assert_eq!(j.start, chrono::RuleDay::Julian1(60));
    assert_eq!(j.start_time, -3_600);
    assert_eq!(j.end, chrono::RuleDay::Julian0(300));
    assert_eq!(j.end_time, 95_415);
    assert_eq!(j.dst_offset, -7_200);
    assert_eq!(parse_rule_string(b""), Err(Error::InvalidTzData));
    assert_eq!(parse_rule_string(b"CET-1CEST,M13.5.0,M10.5.0"), Err(Error::InvalidTzData));
    assert_eq!(parse_rule_string(b"CET-25"), Err(Error::InvalidTzData));
    assert_eq!(parse_rule_string(b"CET-1CEST,M3.5.0"), Err(Error::InvalidTzData));
    assert_eq!(parse_rule_string(b"CET-1 "), Err(Error::InvalidTzData));
}

#[test]
fn error_text_and_position() {
    assert_eq!(Error::InvalidParameter.message(), "invalid parameter");
    assert_eq!(Error::InvalidTzData.message(), "malformed time zone data");
    assert_eq!(Error::InvalidValue(7).position(), Some(7));
    assert_eq!(Error::Inconsistent.position(), None);
}

#[test]
fn test_local_date_sanity_check() {
    // 2999-12-28T00:00:00 on a fixed zone is a single instant on day 28.
    let local = Local::from_offset(&offset(3_600));
    let midnight = 32_503_334_400;
    assert_eq!(days_from_civil(2999, 12, 28) * 86_400, midnight);
    match local.from_local_datetime(&naive(midnight)).unwrap() {
        LocalResult::Single(dt) => {
            let date = dt.date();
            assert_eq!(date.day_number, days_from_civil(2999, 12, 28));
            assert_eq!(date.day_number - days_from_civil(2999, 12, 1) + 1, 28);
        }
        other => panic!("expected one instant, got {:?}", other),
    }
}

#[test]
fn clock_readings() {
    let local = Local::new(rules_2023());
    let dt = local.at_clock_reading(Some(SPRING_2023 as u64)).unwrap();
    assert_eq!(dt.naive_utc().timestamp(), SPRING_2023);
    assert_eq!(dt.offset().local_minus_utc(), 7_200);
    assert_eq!(local.at_clock_reading(None), Err(Error::DateOutOfRange));
    assert_eq!(local.at_clock_reading(Some(u64::MAX)), Err(Error::DateOutOfRange));
    // 2023-03-26T01:00:00Z is 03:00 local, still March 26.
    assert_eq!(dt.date().day_number, days_from_civil(2023, 3, 26));
}

#[test]
fn error_full_descriptions() {
    assert_eq!(
        Error::InvalidCharacter(7).describe(),
        "input doesn't match with the expected format at position 7"
    );
    assert_eq!(
        Error::InvalidValue(1234).describe(),
        "input has a value not allowed by the format at position 1234"
    );
    assert_eq!(Error::InvalidValue(0).describe(), "input has a value not allowed by the format at position 0");
    assert_eq!(
        Error::UnsupportedSpecifier(3).describe(),
        "format string contains a formatting specifier that is not supported"
    );
    assert_eq!(Error::InputTooLong.describe(), "trailing input");
    assert_eq!(Error::InvalidDate.message(), "date or datetime does not exist");
}
