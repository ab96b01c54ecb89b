use vstd::prelude::*;

use crate::error::Error;

verus! {

/// Offsets are bounded strictly below one day in magnitude.
pub const MAX_OFFSET_SECS: i32 = 86_399;

/// A fixed offset from UTC, in seconds east of UTC.
#[derive(Copy, Clone, Debug, PartialEq, Eq, Structural)]
pub struct FixedOffset {
    pub local_minus_utc: i32,
}

/// An offset value in seconds that a `FixedOffset` can hold.
pub open spec fn offset_in_range(secs: int) -> bool {
    -86_400 < secs < 86_400
}

impl FixedOffset {
    pub open spec fn wf(self) -> bool {
        offset_in_range(self.local_minus_utc as int)
    }

    /// Makes an offset of `secs` seconds east of UTC; fails with
    /// `InvalidParameter` when the magnitude reaches one day.
    pub fn east(secs: i32) -> (r: Result<FixedOffset, Error>)
        ensures
            offset_in_range(secs as int) <==> r is Ok,
            r matches Ok(o) ==> o.local_minus_utc == secs && o.wf(),
            r matches Err(e) ==> e == Error::InvalidParameter,
    {
        if -MAX_OFFSET_SECS <= secs && secs <= MAX_OFFSET_SECS {
            Ok(FixedOffset { local_minus_utc: secs })
        } else {
            Err(Error::InvalidParameter)
        }
    }

    /// Makes an offset of `secs` seconds west of UTC; fails with
    /// `InvalidParameter` when the magnitude reaches one day.
    pub fn west(secs: i32) -> (r: Result<FixedOffset, Error>)
        ensures
            offset_in_range(secs as int) <==> r is Ok,
            r matches Ok(o) ==> o.local_minus_utc == -secs && o.wf(),
            r matches Err(e) ==> e == Error::InvalidParameter,
    {
        if -MAX_OFFSET_SECS <= secs && secs <= MAX_OFFSET_SECS {
            Ok(FixedOffset { local_minus_utc: -secs })
        } else {
            Err(Error::InvalidParameter)
        }
    }

    /// Seconds the local clock reads ahead of UTC.
    pub fn local_minus_utc(&self) -> (r: i32)
        ensures
            r == self.local_minus_utc,
    {
        self.local_minus_utc
    }
}

/// The outcome of mapping a local time to UTC: one answer, two answers
/// (earlier UTC instant first), or none.
#[derive(Copy, Clone, Debug, PartialEq, Eq, Structural)]
pub enum LocalResult<T> {
    Single(T),
    Ambiguous(T, T),
    Nonexistent,
}

impl<T> LocalResult<T> {
    /// The single answer; `Inconsistent` when there are two or none.
    pub fn single(self) -> (r: Result<T, Error>)
        ensures
            self is Single <==> r is Ok,
            self matches LocalResult::Single(t) ==> r == Ok::<T, Error>(t),
            !(self is Single) ==> r == Err::<T, Error>(Error::Inconsistent),
    {
        match self {
            LocalResult::Single(t) => Ok(t),
            _ => Err(Error::Inconsistent),
        }
    }

    /// The answer with the earliest UTC instant, if any.
    pub fn earliest(self) -> (r: Option<T>)
        ensures
            self matches LocalResult::Single(t) ==> r == Some(t),
            self matches LocalResult::Ambiguous(a, b) ==> r == Some(a),
            self is Nonexistent ==> r is None,
    {
        match self {
            LocalResult::Single(t) => Some(t),
            LocalResult::Ambiguous(a, _) => Some(a),
            LocalResult::Nonexistent => None,
        }
    }

    /// The answer with the latest UTC instant, if any.
    pub fn latest(self) -> (r: Option<T>)
        ensures
            self matches LocalResult::Single(t) ==> r == Some(t),
            self matches LocalResult::Ambiguous(a, b) ==> r == Some(b),
            self is Nonexistent ==> r is None,
    {
        match self {
            LocalResult::Single(t) => Some(t),
            LocalResult::Ambiguous(_, b) => Some(b),
            LocalResult::Nonexistent => None,
        }
    }
}

} // verus!
