use vstd::prelude::*;

use crate::error::Error;
use crate::extrapolate::{DstRule, ExtrapolationRule, RuleDay};
use crate::offset::offset_in_range;

verus! {

const LT: u8 = 60;
const GT: u8 = 62;
const LOWER_A: u8 = 97;
const LOWER_Z: u8 = 122;
const UPPER_A: u8 = 65;
const UPPER_Z: u8 = 90;
const DIGIT_0: u8 = 48;
const DIGIT_9: u8 = 57;
const PLUS: u8 = 43;
const MINUS: u8 = 45;
const COLON: u8 = 58;
const UPPER_J: u8 = 74;
const UPPER_M: u8 = 77;
const DOT: u8 = 46;
const SLASH: u8 = 47;
const COMMA: u8 = 44;

pub open spec fn is_letter(c: u8) -> bool {
    (97 <= c <= 122) || (65 <= c <= 90)
}

pub open spec fn is_digit(c: u8) -> bool {
    48 <= c <= 57
}

/// The first position from `q` on that holds no letter.
pub open spec fn letters_end(s: Seq<u8>, q: int) -> int
    decreases s.len() - q,
{
    if 0 <= q < s.len() && is_letter(s[q]) {
        letters_end(s, q + 1)
    } else {
        q
    }
}

/// The first position from `q` on that holds `>`, or the end.
pub open spec fn close_end(s: Seq<u8>, q: int) -> int
    decreases s.len() - q,
{
    if 0 <= q < s.len() && s[q] != 62u8 {
        close_end(s, q + 1)
    } else {
        q
    }
}

/// The end of a zone abbreviation at `p`: three or more letters, or any text
/// in angle brackets.
pub open spec fn name_end(s: Seq<u8>, p: int) -> Option<int> {
    if 0 <= p < s.len() && s[p] == 60u8 {
        let q = close_end(s, p + 1);
        if q >= s.len() {
            None
        } else {
            Some(q + 1)
        }
    } else {
        let q = letters_end(s, p);
        if q - p < 3 {
            None
        } else {
            Some(q)
        }
    }
}

pub open spec fn digit_at(s: Seq<u8>, p: int) -> bool {
    0 <= p < s.len() && is_digit(s[p])
}

pub open spec fn byte_at(s: Seq<u8>, p: int, c: u8) -> bool {
    0 <= p < s.len() && s[p] == c
}

/// A decimal number of one to three digits at `p`, and the position after it.
pub open spec fn number_at(s: Seq<u8>, p: int) -> Option<(int, int)> {
    if !digit_at(s, p) {
        None
    } else {
        let d1 = s[p] - 48;
        if !digit_at(s, p + 1) {
            Some((d1, p + 1))
        } else {
            let d2 = d1 * 10 + s[p + 1] - 48;
            if !digit_at(s, p + 2) {
                Some((d2, p + 2))
            } else {
                Some((d2 * 10 + s[p + 2] - 48, p + 3))
            }
        }
    }
}

/// `x`, negated when `negative`.
pub open spec fn apply_sign(negative: bool, x: int) -> int {
    if negative {
        -x
    } else {
        x
    }
}

/// `[+|-]hh[:mm[:ss]]` at `p`, hours up to 167 and minutes and seconds up to
/// 59, as seconds, and the position after it.
pub open spec fn time_at(s: Seq<u8>, p: int) -> Option<(int, int)> {
    let signed = byte_at(s, p, 43u8) || byte_at(s, p, 45u8);
    let neg = byte_at(s, p, 45u8);
    let q = if signed { p + 1 } else { p };
    match number_at(s, q) {
        None => None,
        Some((h, q1)) => if h > 167 {
            None
        } else if !byte_at(s, q1, 58u8) {
            Some((apply_sign(neg, h * 3600), q1))
        } else {
            match number_at(s, q1 + 1) {
                None => None,
                Some((m, q2)) => if m > 59 {
                    None
                } else if !byte_at(s, q2, 58u8) {
                    Some((apply_sign(neg, h * 3600 + m * 60), q2))
                } else {
                    match number_at(s, q2 + 1) {
                        None => None,
                        Some((sec, q3)) => if sec > 59 {
                            None
                        } else {
                            Some((apply_sign(neg, h * 3600 + m * 60 + sec), q3))
                        },
                    }
                },
            }
        },
    }
}

/// A rule day at `p`: `Jn`, `n` or `Mm.w.d`, and the position after it.
pub open spec fn rule_day_at(s: Seq<u8>, p: int) -> Option<(RuleDay, int)> {
    if byte_at(s, p, 74u8) {
        match number_at(s, p + 1) {
            Some((v, q)) => if 1 <= v <= 365 {
                Some((RuleDay::Julian1(v as u16), q))
            } else {
                None
            },
            None => None,
        }
    } else if byte_at(s, p, 77u8) {
        match number_at(s, p + 1) {
            Some((m, q1)) => if !(1 <= m <= 12 && byte_at(s, q1, 46u8)) {
                None
            } else {
                match number_at(s, q1 + 1) {
                    Some((w, q2)) => if !(1 <= w <= 5 && byte_at(s, q2, 46u8)) {
                        None
                    } else {
                        match number_at(s, q2 + 1) {
                            Some((d, q3)) => if d > 6 {
                                None
                            } else {
                                Some(
                                    (
                                        RuleDay::MonthWeekDay {
                                            month: m as u8,
                                            week: w as u8,
                                            weekday: d as u8,
                                        },
                                        q3,
                                    ),
                                )
                            },
                            None => None,
                        }
                    },
                    None => None,
                }
            },
            None => None,
        }
    } else {
        match number_at(s, p) {
            Some((v, q)) => if v > 365 {
                None
            } else {
                Some((RuleDay::Julian0(v as u16), q))
            },
            None => None,
        }
    }
}

/// A rule day with its optional `/time` (02:00 when absent) at `p`.
pub open spec fn change_at(s: Seq<u8>, p: int) -> Option<(RuleDay, int, int)> {
    match rule_day_at(s, p) {
        None => None,
        Some((d, q)) => if byte_at(s, q, 47u8) {
            match time_at(s, q + 1) {
                None => None,
                Some((t, q2)) => Some((d, t, q2)),
            }
        } else {
            Some((d, 7200, q))
        },
    }
}

/// Seconds east of UTC for an offset written in seconds west, if within a day.
pub open spec fn east_offset(west: int) -> Option<int> {
    if offset_in_range(-west) {
        Some(-west)
    } else {
        None
    }
}

/// The daylight-saving part after the standard part, from position `p` on.
pub open spec fn dst_part(s: Seq<u8>, p: int, std_west: int) -> Option<DstRule> {
    match name_end(s, p) {
        None => None,
        Some(p1) => {
            let off: Option<(int, int)> = if 0 <= p1 < s.len() && s[p1] != 44u8 {
                match time_at(s, p1) {
                    None => None,
                    Some((w, q)) => match east_offset(w) {
                        None => None,
                        Some(o) => Some((o, q)),
                    },
                }
            } else {
                match east_offset(std_west - 3600) {
                    None => None,
                    Some(o) => Some((o, p1)),
                }
            };
            match off {
                None => None,
                Some((dst_offset, p2)) => if !byte_at(s, p2, 44u8) {
                    None
                } else {
                    match change_at(s, p2 + 1) {
                        None => None,
                        Some((start, start_time, p3)) => if !byte_at(s, p3, 44u8) {
                            None
                        } else {
                            match change_at(s, p3 + 1) {
                                None => None,
                                Some((end, end_time, p4)) => if p4 != s.len() {
                                    None
                                } else {
                                    Some(
                                        DstRule {
                                            dst_offset: dst_offset as i32,
                                            start,
                                            start_time: start_time as i32,
                                            end,
                                            end_time: end_time as i32,
                                        },
                                    )
                                },
                            }
                        },
                    }
                },
            }
        },
    }
}

/// The rule that a POSIX-style rule string states, if it is well formed.
pub open spec fn rule_of(s: Seq<u8>) -> Option<ExtrapolationRule> {
    match name_end(s, 0) {
        None => None,
        Some(p) => match time_at(s, p) {
            None => None,
            Some((std_west, p1)) => match east_offset(std_west) {
                None => None,
                Some(std_offset) => if p1 == s.len() {
                    Some(ExtrapolationRule { std_offset: std_offset as i32, dst: None })
                } else {
                    match dst_part(s, p1, std_west) {
                        None => None,
                        Some(d) => Some(
                            ExtrapolationRule { std_offset: std_offset as i32, dst: Some(d) },
                        ),
                    }
                },
            },
        },
    }
}

/// Skips a zone abbreviation at `p`. Returns the position after it.
fn skip_name(s: &[u8], p: usize) -> (r: Result<usize, Error>)
    requires
        p <= s@.len(),
    ensures
        r is Ok <==> name_end(s@, p as int) is Some,
        r matches Ok(q) ==> name_end(s@, p as int) == Some(q as int) && p < q <= s@.len(),
        r matches Err(e) ==> e == Error::InvalidTzData,
{
    let n = s.len();
    if p < n && s[p] == LT {
        let mut q = p + 1;
        while q < n && s[q] != GT
            invariant
                p < q <= n,
                n == s@.len(),
                close_end(s@, q as int) == close_end(s@, p + 1),
            decreases n - q,
        {
            q = q + 1;
        }
        if q == n {
            return Err(Error::InvalidTzData);
        }
        return Ok(q + 1);
    }
    let mut q = p;
    while q < n && ((s[q] >= LOWER_A && s[q] <= LOWER_Z) || (s[q] >= UPPER_A && s[q] <= UPPER_Z))
        invariant
            p <= q <= n,
            n == s@.len(),
            letters_end(s@, q as int) == letters_end(s@, p as int),
        decreases n - q,
    {
        q = q + 1;
    }
    if q - p < 3 {
        return Err(Error::InvalidTzData);
    }
    Ok(q)
}

fn is_digit_at(s: &[u8], p: usize) -> (r: bool)
    ensures
        r == digit_at(s@, p as int),
{
    p < s.len() && s[p] >= DIGIT_0 && s[p] <= DIGIT_9
}

fn is_byte_at(s: &[u8], p: usize, c: u8) -> (r: bool)
    ensures
        r == byte_at(s@, p as int, c),
{
    p < s.len() && s[p] == c
}

/// Reads a decimal number of one to three digits at `p`.
fn read_number(s: &[u8], p: usize) -> (r: Result<(i64, usize), Error>)
    requires
        p <= s@.len(),
    ensures
        r is Ok <==> number_at(s@, p as int) is Some,
        r matches Ok((v, q)) ==> number_at(s@, p as int) == Some((v as int, q as int)) && p < q
            <= s@.len() && 0 <= v <= 999,
        r matches Err(e) ==> e == Error::InvalidTzData,
{
    let _n = s.len();
    if !is_digit_at(s, p) {
        return Err(Error::InvalidTzData);
    }
    let d1 = (s[p] - DIGIT_0) as i64;
    if !is_digit_at(s, p + 1) {
        return Ok((d1, p + 1));
    }
    let d2 = d1 * 10 + (s[p + 1] - DIGIT_0) as i64;
    if !is_digit_at(s, p + 2) {
        return Ok((d2, p + 2));
    }
    Ok((d2 * 10 + (s[p + 2] - DIGIT_0) as i64, p + 3))
}

fn signed_by(negative: bool, mag: i64) -> (r: i64)
    requires
        0 <= mag < 604_800,
    ensures
        r == apply_sign(negative, mag as int),
        -604_800 < r < 604_800,
{
    if negative {
        -mag
    } else {
        mag
    }
}

/// Reads `[+|-]hh[:mm[:ss]]` at `p`, hours up to 167, as seconds.
fn read_time(s: &[u8], p: usize) -> (r: Result<(i64, usize), Error>)
    requires
        p <= s@.len(),
    ensures
        r is Ok <==> time_at(s@, p as int) is Some,
        r matches Ok((v, q)) ==> time_at(s@, p as int) == Some((v as int, q as int)) && p < q
            <= s@.len() && -604_800 < v < 604_800,
        r matches Err(e) ==> e == Error::InvalidTzData,
{
    let _n = s.len();
    let signed = is_byte_at(s, p, PLUS) || is_byte_at(s, p, MINUS);
    let negative = is_byte_at(s, p, MINUS);
    let q: usize = if signed {
        p + 1
    } else {
        p
    };
    let (h, q1) = read_number(s, q)?;
    if h > 167 {
        return Err(Error::InvalidTzData);
    }
    if !is_byte_at(s, q1, COLON) {
        return Ok((signed_by(negative, h * 3_600), q1));
    }
    let (m, q2) = read_number(s, q1 + 1)?;
    if m > 59 {
        return Err(Error::InvalidTzData);
    }
    if !is_byte_at(s, q2, COLON) {
        return Ok((signed_by(negative, h * 3_600 + m * 60), q2));
    }
    let (sec, q3) = read_number(s, q2 + 1)?;
    if sec > 59 {
        return Err(Error::InvalidTzData);
    }
    Ok((signed_by(negative, h * 3_600 + m * 60 + sec), q3))
}

/// Reads a rule day at `p`: `Jn`, `n` or `Mm.w.d`.
fn read_rule_day(s: &[u8], p: usize) -> (r: Result<(RuleDay, usize), Error>)
    requires
        p <= s@.len(),
    ensures
        r is Ok <==> rule_day_at(s@, p as int) is Some,
        r matches Ok((d, q)) ==> rule_day_at(s@, p as int) == Some((d, q as int)) && p < q
            <= s@.len() && d.wf(),
        r matches Err(e) ==> e == Error::InvalidTzData,
{
    let _n = s.len();
    if is_byte_at(s, p, UPPER_J) {
        let (v, q) = read_number(s, p + 1)?;
        if v < 1 || v > 365 {
            return Err(Error::InvalidTzData);
        }
        return Ok((RuleDay::Julian1(v as u16), q));
    }
    if is_byte_at(s, p, UPPER_M) {
        let (m, q1) = read_number(s, p + 1)?;
        if m < 1 || m > 12 || !is_byte_at(s, q1, DOT) {
            return Err(Error::InvalidTzData);
        }
        let (w, q2) = read_number(s, q1 + 1)?;
        if w < 1 || w > 5 || !is_byte_at(s, q2, DOT) {
            return Err(Error::InvalidTzData);
        }
        let (d, q3) = read_number(s, q2 + 1)?;
        if d > 6 {
            return Err(Error::InvalidTzData);
        }
        return Ok((RuleDay::MonthWeekDay { month: m as u8, week: w as u8, weekday: d as u8 }, q3));
    }
    let (v, q) = read_number(s, p)?;
    if v > 365 {
        return Err(Error::InvalidTzData);
    }
    Ok((RuleDay::Julian0(v as u16), q))
}

/// Reads a rule day and its optional `/time`, 02:00 when absent.
fn read_change(s: &[u8], p: usize) -> (r: Result<(RuleDay, i32, usize), Error>)
    requires
        p <= s@.len(),
    ensures
        r is Ok <==> change_at(s@, p as int) is Some,
        r matches Ok((d, t, q)) ==> change_at(s@, p as int) == Some((d, t as int, q as int)) && p
            < q <= s@.len() && d.wf() && -604_800 < t < 604_800,
        r matches Err(e) ==> e == Error::InvalidTzData,
{
    let _n = s.len();
    let (d, q) = read_rule_day(s, p)?;
    if is_byte_at(s, q, SLASH) {
        let (t, q2) = read_time(s, q + 1)?;
        return Ok((d, t as i32, q2));
    }
    Ok((d, 7_200, q))
}

/// Seconds east of UTC for a rule offset, which counts seconds west.
fn east_of(west: i64) -> (r: Result<i32, Error>)
    requires
        -700_000 < west < 700_000,
    ensures
        r is Ok <==> east_offset(west as int) is Some,
        r matches Ok(o) ==> east_offset(west as int) == Some(o as int) && offset_in_range(o as int),
        r matches Err(e) ==> e == Error::InvalidTzData,
{
    if west <= -86_400 || west >= 86_400 {
        return Err(Error::InvalidTzData);
    }
    Ok(-west as i32)
}

/// Parses a POSIX-style rule string such as `CET-1CEST,M3.5.0,M10.5.0/3`:
/// a standard name and offset (hours west of UTC), then optionally a
/// daylight-saving name, its offset (an hour east of standard when absent) and
/// the days and times at which it starts and ends. Anything left over, or out
/// of range, is refused with `InvalidTzData`.
pub fn parse_rule_string(s: &[u8]) -> (r: Result<ExtrapolationRule, Error>)
    ensures
        r is Ok <==> rule_of(s@) is Some,
        r matches Ok(rule) ==> rule_of(s@) == Some(rule) && rule.wf(),
        r matches Err(e) ==> e == Error::InvalidTzData,
{
    let n = s.len();
    let p = skip_name(s, 0)?;
    let (std_west, p) = read_time(s, p)?;
    let std_offset = east_of(std_west)?;
    if p == n {
        return Ok(ExtrapolationRule { std_offset, dst: None });
    }
    let p0 = p;
    let p = skip_name(s, p)?;
    let (dst_offset, p) = if p < n && s[p] != COMMA {
        let (w, q) = read_time(s, p)?;
        (east_of(w)?, q)
    } else {
        (east_of(std_west - 3_600)?, p)
    };
    if !is_byte_at(s, p, COMMA) {
        return Err(Error::InvalidTzData);
    }
    let (start, start_time, p) = read_change(s, p + 1)?;
    if !is_byte_at(s, p, COMMA) {
        return Err(Error::InvalidTzData);
    }
    let (end, end_time, p) = read_change(s, p + 1)?;
    if p != n {
        return Err(Error::InvalidTzData);
    }
    let d = DstRule { dst_offset, start, start_time, end, end_time };
    assert(dst_part(s@, p0 as int, std_west as int) == Some(d));
    Ok(ExtrapolationRule { std_offset, dst: Some(d) })
}

} // verus!
