//! Byte ranges read through `Range::satisfiable_ranges`.
//!
//! Here suffix specs arrive already resolved against the representation
//! length (`-n` as `len - n ..`), and a suffix longer than the
//! representation is dropped by the header before this module sees it; the
//! oversized-suffix check then serves the whole representation.
use vstd::prelude::*;

use crate::range_header::{is_range_value, satisfiable_specs, Bound, Range};
use crate::response::{has_oversized_suffix_range, oversized_suffix, BadRangeError};

verus! {

/// One resolved spec against a representation of `max_len` bytes (suffixes
/// no longer occur here).
pub open spec fn normalize_resolved(start: Bound, end: Bound, max_len: u64) -> Result<
    Option<(u64, u64)>,
    (),
> {
    match (start, end) {
        (Bound::Included(s), Bound::Included(e)) => if s > e {
            Err(())
        } else if s >= max_len {
            Ok(None)
        } else {
            let e2: u64 = if e >= max_len {
                max_len
            } else {
                (e + 1) as u64
            };
            if s < e2 {
                Ok(Some((s, e2)))
            } else {
                Ok(None)
            }
        },
        (Bound::Included(s), Bound::Unbounded) => if s < max_len {
            Ok(Some((s, max_len)))
        } else {
            Ok(None)
        },
        _ => Err(()),
    }
}

/// The outcome of the resolved specs from position `i` on: the first that
/// is an error or selects an interval decides.
pub open spec fn first_resolved_outcome(bs: Seq<(Bound, Bound)>, i: int, max_len: u64) -> Option<
    Result<(u64, u64), ()>,
>
    decreases bs.len() - i,
{
    if i < 0 || i >= bs.len() {
        None
    } else {
        match normalize_resolved(bs[i].0, bs[i].1, max_len) {
            Err(()) => Some(Err(())),
            Ok(Some(p)) => Some(Ok(p)),
            Ok(None) => first_resolved_outcome(bs, i + 1, max_len),
        }
    }
}

/// What `bytes_range` returns.
pub open spec fn satisfiable_range_spec(range: Option<Seq<char>>, max_len: u64) -> Result<
    (u64, u64),
    (),
> {
    match range {
        None => Ok((0, max_len)),
        Some(v) => match first_resolved_outcome(satisfiable_specs(v, max_len), 0, max_len) {
            Some(r) => r,
            None => if oversized_suffix(v, max_len) {
                Ok((0, max_len))
            } else {
                Err(())
            },
        },
    }
}

/// Executable `normalize_resolved`.
pub fn normalize_byte_range(start: Bound, end: Bound, max_len: u64) -> (r: Result<
    Option<(u64, u64)>,
    BadRangeError,
>)
    ensures
        match r {
            Ok(x) => normalize_resolved(start, end, max_len) == Ok::<Option<(u64, u64)>, ()>(x),
            Err(_) => normalize_resolved(start, end, max_len) is Err,
        },
{
    match (start, end) {
        (Bound::Included(start), Bound::Included(end)) => {
            if start > end {
                return Err(BadRangeError);
            }
            if start >= max_len {
                return Ok(None);
            }
            let end = if end >= max_len {
                max_len
            } else {
                end + 1
            };
            if start < end {
                Ok(Some((start, end)))
            } else {
                Ok(None)
            }
        },
        (Bound::Included(start), Bound::Unbounded) => {
            if start < max_len {
                Ok(Some((start, max_len)))
            } else {
                Ok(None)
            }
        },
        _ => Err(BadRangeError),
    }
}

/// The part of a representation of `max_len` bytes that `range` asks for,
/// as a half-open interval `(start, end)`, reading the specs resolved
/// against `max_len` (see `satisfiable_range_spec`). A served range is
/// never empty and never reaches past the end of the representation.
#[verifier::loop_isolation(false)]
pub fn bytes_range(range: Option<Range>, max_len: u64) -> (r: Result<(u64, u64), BadRangeError>)
    requires
        range matches Some(v) ==> is_range_value(v@),
    ensures
        match r {
            Ok(p) => satisfiable_range_spec(
                match range {
                    Some(v) => Some(v@),
                    None => None,
                },
                max_len,
            ) == Ok::<(u64, u64), ()>(p),
            Err(_) => satisfiable_range_spec(
                match range {
                    Some(v) => Some(v@),
                    None => None,
                },
                max_len,
            ) is Err,
        },
        r matches Ok((start, end)) ==> start <= end <= max_len,
        range is Some ==> (r matches Ok((start, end)) ==> start < end),
{
    let range = if let Some(range) = range {
        range
    } else {
        return Ok((0, max_len));
    };
    let bs = range.satisfiable_ranges(max_len);
    let ghost rs = satisfiable_specs(range@, max_len);
    assert(bs@ == rs);
    let mut k: usize = 0;
    while k < bs.len()
        invariant
            k <= bs@.len(),
            bs@ == rs,
            first_resolved_outcome(rs, 0, max_len) == first_resolved_outcome(rs, k as int, max_len),
        decreases bs@.len() - k,
    {
        let (start, end) = bs[k];
        match normalize_byte_range(start, end, max_len) {
            Err(e) => {
                return Err(e);
            },
            Ok(Some((start, end))) => {
                return Ok((start, end));
            },
            Ok(None) => {},
        }
        k = k + 1;
    }
    if has_oversized_suffix_range(&range, max_len) {
        Ok((0, max_len))
    } else {
        Err(BadRangeError)
    }
}

} // verus!
